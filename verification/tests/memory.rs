use pokedex::domain::entities::{Pokemon, PokemonName, PokemonNumber, PokemonTypes};
use pokedex::repositories::pokemon::{
    DeleteError, FetchAllError, FetchOneError, InMemoryRepository, InsertError, Repository,
};

fn number(n: u16) -> PokemonNumber {
    PokemonNumber::try_from(n).unwrap()
}

fn name(text: &str) -> PokemonName {
    PokemonName::try_from(String::from(text)).unwrap()
}

fn types(tags: &[&str]) -> PokemonTypes {
    PokemonTypes::try_from(tags.iter().map(|tag| String::from(*tag)).collect::<Vec<String>>())
        .unwrap()
}

fn fields(pokemon: Pokemon) -> (u16, String, Vec<String>) {
    pokemon.into_fields()
}

fn entry(n: u16, text: &str, tags: &[&str]) -> (u16, String, Vec<String>) {
    (n, String::from(text), tags.iter().map(|tag| String::from(*tag)).collect())
}

#[test]
fn memory_starts_empty() {
    let repo = InMemoryRepository::new();
    assert!(repo.fetch_all().unwrap().is_empty());
    assert!(matches!(repo.fetch_one(number(25)), Err(FetchOneError::NotFound)));
}

#[test]
fn memory_insert_then_fetch_gives_identical_fields() {
    let mut repo = InMemoryRepository::new();
    let inserted = repo.insert(number(25), name("Pikachu"), types(&["Electric"])).unwrap();
    assert_eq!(fields(inserted), entry(25, "Pikachu", &["Electric"]));
    let fetched = repo.fetch_one(number(25)).unwrap();
    assert_eq!(fields(fetched), entry(25, "Pikachu", &["Electric"]));
    let both = repo.insert(number(6), name("Charizard"), types(&["Fire", "Electric"])).unwrap();
    assert_eq!(fields(both), entry(6, "Charizard", &["Fire", "Electric"]));
    assert_eq!(
        fields(repo.fetch_one(number(6)).unwrap()),
        entry(6, "Charizard", &["Fire", "Electric"])
    );
}

#[test]
fn memory_second_insert_conflicts_and_changes_nothing() {
    let mut repo = InMemoryRepository::new();
    assert!(repo.insert(number(25), name("Pikachu"), types(&["Electric"])).is_ok());
    assert!(matches!(
        repo.insert(number(25), name("Raichu"), types(&["Fire"])),
        Err(InsertError::Conflict)
    ));
    assert_eq!(fields(repo.fetch_one(number(25)).unwrap()), entry(25, "Pikachu", &["Electric"]));
    assert_eq!(repo.fetch_all().unwrap().len(), 1);
}

#[test]
fn memory_missing_number_is_not_found() {
    let mut repo = InMemoryRepository::new();
    assert!(repo.insert(number(25), name("Pikachu"), types(&["Electric"])).is_ok());
    assert!(matches!(repo.fetch_one(number(4)), Err(FetchOneError::NotFound)));
    assert!(matches!(repo.delete(number(4)), Err(DeleteError::NotFound)));
    assert!(matches!(repo.fetch_one(number(26)), Err(FetchOneError::NotFound)));
    assert!(matches!(repo.delete(number(898)), Err(DeleteError::NotFound)));
    assert_eq!(repo.fetch_all().unwrap().len(), 1);
}

#[test]
fn memory_delete_then_fetch_and_delete_are_not_found() {
    let mut repo = InMemoryRepository::new();
    assert!(repo.insert(number(4), name("Charmander"), types(&["Fire"])).is_ok());
    assert!(repo.insert(number(25), name("Pikachu"), types(&["Electric"])).is_ok());
    assert!(repo.delete(number(25)).is_ok());
    assert!(matches!(repo.fetch_one(number(25)), Err(FetchOneError::NotFound)));
    assert!(matches!(repo.delete(number(25)), Err(DeleteError::NotFound)));
    assert_eq!(fields(repo.fetch_one(number(4)).unwrap()), entry(4, "Charmander", &["Fire"]));
}

#[test]
fn memory_scenario() {
    let mut repo = InMemoryRepository::new();
    assert!(repo.insert(number(25), name("Pikachu"), types(&["Electric"])).is_ok());
    let all = repo.fetch_all().unwrap();
    assert_eq!(all.len(), 1);
    let expected = Pokemon::new(number(25), name("Pikachu"), types(&["Electric"]));
    assert!(all[0] == expected);
    assert!(matches!(
        repo.insert(number(25), name("Raichu"), types(&["Electric"])),
        Err(InsertError::Conflict)
    ));
    assert!(repo.delete(number(25)).is_ok());
    assert!(matches!(repo.fetch_one(number(25)), Err(FetchOneError::NotFound)));
}

#[test]
fn memory_lists_by_ascending_number() {
    let mut repo = InMemoryRepository::new();
    for (n, text) in [(25u16, "Pikachu"), (4, "Charmander"), (898, "Calyrex"), (1, "Bulbasaur"), (26, "Raichu")] {
        assert!(repo.insert(number(n), name(text), types(&["Fire"])).is_ok());
    }
    let listed: Vec<u16> =
        repo.fetch_all().unwrap().into_iter().map(|pokemon| pokemon.number.value()).collect();
    assert_eq!(listed, vec![1, 4, 25, 26, 898]);
    assert!(repo.delete(number(25)).is_ok());
    assert!(repo.delete(number(1)).is_ok());
    let listed: Vec<(u16, String)> = repo
        .fetch_all()
        .unwrap()
        .into_iter()
        .map(|pokemon| (pokemon.number.value(), String::from(pokemon.name)))
        .collect();
    assert_eq!(
        listed,
        vec![
            (4, String::from("Charmander")),
            (26, String::from("Raichu")),
            (898, String::from("Calyrex"))
        ]
    );
}

#[test]
fn memory_made_to_fail_answers_unknown_and_keeps_its_entries() {
    let mut repo = InMemoryRepository::new();
    assert!(repo.insert(number(25), name("Pikachu"), types(&["Electric"])).is_ok());
    let mut repo = repo.with_error();
    assert!(matches!(
        repo.insert(number(4), name("Charmander"), types(&["Fire"])),
        Err(InsertError::Unknown)
    ));
    assert!(matches!(
        repo.insert(number(25), name("Pikachu"), types(&["Electric"])),
        Err(InsertError::Unknown)
    ));
    assert!(matches!(repo.fetch_all(), Err(FetchAllError::Unknown)));
    assert!(matches!(repo.fetch_one(number(25)), Err(FetchOneError::Unknown)));
    assert!(matches!(repo.delete(number(25)), Err(DeleteError::Unknown)));
    assert!(matches!(repo.delete(number(4)), Err(DeleteError::Unknown)));
}
