use pokedex::domain::create_pokemon::{execute, Error, Request, Response};
use pokedex::domain::entities::{Pokemon, PokemonName, PokemonNumber, PokemonTypes};
use pokedex::repositories::pokemon::{
    DeleteError, FetchAllError, FetchOneError, InMemoryRepository, InsertError, Repository,
};

fn pikachu_number() -> PokemonNumber {
    PokemonNumber::try_from(25).unwrap()
}

fn pikachu_name() -> PokemonName {
    PokemonName::try_from(String::from("Pikachu")).unwrap()
}

fn charmander_name() -> PokemonName {
    PokemonName::try_from(String::from("Charmander")).unwrap()
}

fn pikachu_types() -> PokemonTypes {
    PokemonTypes::try_from(vec![String::from("Electric")]).unwrap()
}

fn charmander_types() -> PokemonTypes {
    PokemonTypes::try_from(vec![String::from("Fire")]).unwrap()
}

fn request(number: PokemonNumber, name: String, types: PokemonTypes) -> Request {
    Request { number: u16::from(number), name, types: Vec::<String>::from(types) }
}

/// A repository that must never be called.
struct Untouchable;

impl Repository for Untouchable {
    fn insert(
        &mut self,
        _number: PokemonNumber,
        _name: PokemonName,
        _types: PokemonTypes,
    ) -> Result<Pokemon, InsertError> {
        panic!("insert was called")
    }

    fn fetch_all(&self) -> Result<Vec<Pokemon>, FetchAllError> {
        panic!("fetch_all was called")
    }

    fn fetch_one(&self, _number: PokemonNumber) -> Result<Pokemon, FetchOneError> {
        panic!("fetch_one was called")
    }

    fn delete(&mut self, _number: PokemonNumber) -> Result<(), DeleteError> {
        panic!("delete was called")
    }
}

#[test]
fn it_should_return_a_bad_request_error_when_request_is_invalid() {
    let mut repo = InMemoryRepository::new();

    let req = request(pikachu_number(), String::from(""), charmander_types());

    let res = execute(&mut repo, req);

    match res {
        Err(Error::BadRequest) => {}
        _ => unreachable!(),
    };
}

#[test]
fn it_should_return_a_conflict_error_when_pokemon_number_already_exists() {
    let mut repo = InMemoryRepository::new();
    repo.insert(pikachu_number(), pikachu_name(), pikachu_types()).ok();
    let req = request(pikachu_number(), String::from(charmander_name()), charmander_types());

    let res = execute(&mut repo, req);

    match res {
        Err(Error::Conflict) => {}
        _ => unreachable!(),
    }
}

#[test]
fn it_should_return_an_error_when_an_unexpected_error_happens() {
    let mut repo = InMemoryRepository::new().with_error();
    let req = request(pikachu_number(), String::from(pikachu_name()), pikachu_types());

    let res = execute(&mut repo, req);

    match res {
        Err(Error::Unknown) => {}
        _ => unreachable!(),
    };
}

#[test]
fn it_should_return_the_pokemon_number_otherwise() {
    let mut repo = InMemoryRepository::new();
    let req = request(pikachu_number(), String::from(pikachu_name()), pikachu_types());

    let res = execute(&mut repo, req);

    match res {
        Ok(Response { number, name, types }) => {
            assert_eq!(number, u16::from(pikachu_number()));
            assert_eq!(name, String::from(pikachu_name()));
            assert_eq!(types, Vec::from(pikachu_types()));
        }
        _ => unreachable!(),
    };
}

#[test]
fn create_answers_the_fields_of_the_request() {
    let mut repo = InMemoryRepository::new();
    let req = Request {
        number: 4,
        name: String::from("Charmander"),
        types: vec![String::from("Fire")],
    };
    let res = execute(&mut repo, req).unwrap();
    assert_eq!(res.number, 4);
    assert_eq!(res.name, "Charmander");
    assert_eq!(res.types, vec![String::from("Fire")]);
    let stored = repo.fetch_one(PokemonNumber::try_from(4).unwrap()).unwrap();
    assert_eq!(u16::from(stored.number), 4);
    assert_eq!(String::from(stored.name), "Charmander");
    assert_eq!(Vec::<String>::from(stored.types), vec![String::from("Fire")]);
}

#[test]
fn create_rejects_each_invalid_field_without_calling_the_repository() {
    let valid_types = || vec![String::from("Electric")];
    let requests = vec![
        Request { number: 0, name: String::from("Pikachu"), types: valid_types() },
        Request { number: 899, name: String::from("Pikachu"), types: valid_types() },
        Request { number: u16::MAX, name: String::from("Pikachu"), types: valid_types() },
        Request { number: 25, name: String::new(), types: valid_types() },
        Request { number: 25, name: String::from("Pikachu"), types: vec![] },
        Request { number: 25, name: String::from("Pikachu"), types: vec![String::from("Water")] },
        Request {
            number: 25,
            name: String::from("Pikachu"),
            types: vec![String::from("Electric"), String::from("electric")],
        },
        Request {
            number: 25,
            name: String::from("Pikachu"),
            types: vec![String::from("Electric"), String::from("Fire"), String::from("Fire")],
        },
    ];
    for req in requests {
        let mut repo = Untouchable;
        assert!(matches!(execute(&mut repo, req), Err(Error::BadRequest)));
    }
}

#[test]
fn create_accepts_the_bounds_of_the_number_range() {
    let mut repo = InMemoryRepository::new();
    for number in [1u16, 898] {
        let req = Request { number, name: String::from("Mew"), types: vec![String::from("Fire")] };
        assert_eq!(execute(&mut repo, req).unwrap().number, number);
    }
}

#[test]
fn create_keeps_the_first_entry_on_conflict() {
    let mut repo = InMemoryRepository::new();
    let first = Request {
        number: 25,
        name: String::from("Pikachu"),
        types: vec![String::from("Electric")],
    };
    let second = Request {
        number: 25,
        name: String::from("Raichu"),
        types: vec![String::from("Fire")],
    };
    assert!(execute(&mut repo, first).is_ok());
    assert!(matches!(execute(&mut repo, second), Err(Error::Conflict)));
    let stored = repo.fetch_one(pikachu_number()).unwrap();
    assert_eq!(String::from(stored.name), "Pikachu");
    assert_eq!(Vec::<String>::from(stored.types), vec![String::from("Electric")]);
    assert_eq!(repo.fetch_all().unwrap().len(), 1);
}
