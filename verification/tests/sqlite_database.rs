use pokedex::domain::entities::{Pokemon, PokemonName, PokemonNumber, PokemonTypes};
use pokedex::domain::{create_pokemon, delete_pokemon, fetch_all_pokemons, fetch_pokemon};
use pokedex::repositories::pokemon::sqlite::{SqlCommand, SqlReply};
use pokedex::repositories::pokemon::{
    DeleteError, FetchAllError, FetchOneError, InsertError, Repository, Service, SqliteRepository,
};
use rusqlite::Connection;
use std::rc::Rc;

/// A database in memory, driven by the runs of the library.
struct Database {
    connection: Connection,
}

fn changed(result: rusqlite::Result<usize>) -> SqlReply {
    match result {
        Ok(rows) => SqlReply::Changed(rows),
        Err(rusqlite::Error::SqliteFailure(_, message)) => SqlReply::Failed(message),
        Err(_) => SqlReply::Failed(None),
    }
}

impl Database {
    fn with_schema(types_table: &str) -> Self {
        let connection = Connection::open_in_memory().unwrap();
        connection
            .execute("create table pokemons (number integer primary key, name text not null)", ())
            .unwrap();
        connection.execute(types_table, ()).unwrap();
        Database { connection }
    }

    fn new() -> Self {
        Self::with_schema(
            "create table types (pokemon_number integer not null references pokemons (number), \
             name text not null)",
        )
    }

    fn count(&self, table: &str) -> u32 {
        self.connection
            .query_row(&format!("select count(*) from {}", table), (), |row| row.get(0))
            .unwrap()
    }

    fn pokemon_rows(&self, sql: &str, number: Option<u16>) -> rusqlite::Result<Vec<(u16, String)>> {
        let mut statement = self.connection.prepare(sql)?;
        let read = |row: &rusqlite::Row<'_>| Ok((row.get(0)?, row.get(1)?));
        let rows = match number {
            Some(number) => statement.query_map((number,), read)?.collect(),
            None => statement.query_map((), read)?.collect(),
        };
        rows
    }

    fn type_rows(&self, sql: &str, number: u16) -> rusqlite::Result<Vec<String>> {
        let mut statement = self.connection.prepare(sql)?;
        let rows = statement.query_map((number,), |row| row.get(0))?.collect();
        rows
    }
}

impl Service<SqlCommand, SqlReply> for Database {
    fn perform(&self, command: &SqlCommand) -> SqlReply {
        let sql = command.statement();
        match command {
            SqlCommand::Begin
            | SqlCommand::Commit
            | SqlCommand::Rollback
            | SqlCommand::EnableForeignKeys => changed(self.connection.execute(sql, ())),
            SqlCommand::InsertPokemon { number, name } | SqlCommand::InsertType { number, name } => {
                changed(self.connection.execute(sql, (number, name)))
            }
            SqlCommand::DeletePokemon { number } | SqlCommand::DeleteTypes { number } => {
                changed(self.connection.execute(sql, (number,)))
            }
            SqlCommand::SelectPokemons => match self.pokemon_rows(sql, None) {
                Ok(rows) => SqlReply::Pokemons(rows),
                Err(_) => SqlReply::Failed(None),
            },
            SqlCommand::SelectPokemon { number } => match self.pokemon_rows(sql, Some(*number)) {
                Ok(rows) => SqlReply::Pokemons(rows),
                Err(_) => SqlReply::Failed(None),
            },
            SqlCommand::SelectTypes { number } => match self.type_rows(sql, *number) {
                Ok(rows) => SqlReply::Types(rows),
                Err(_) => SqlReply::Failed(None),
            },
        }
    }
}

/// A connection that is shared with the test, which looks into the tables.
struct Shared(Rc<Database>);

impl Service<SqlCommand, SqlReply> for Shared {
    fn perform(&self, command: &SqlCommand) -> SqlReply {
        self.0.perform(command)
    }
}

fn open(database: Database) -> (SqliteRepository<Shared>, Rc<Database>) {
    let database = Rc::new(database);
    (SqliteRepository::try_new(Shared(database.clone())).unwrap(), database)
}

fn number(n: u16) -> PokemonNumber {
    PokemonNumber::try_from(n).unwrap()
}

fn name(text: &str) -> PokemonName {
    PokemonName::try_from(String::from(text)).unwrap()
}

fn types(tags: &[&str]) -> PokemonTypes {
    PokemonTypes::try_from(tags.iter().map(|tag| String::from(*tag)).collect::<Vec<String>>())
        .unwrap()
}

fn entry(n: u16, text: &str, tags: &[&str]) -> (u16, String, Vec<String>) {
    (n, String::from(text), tags.iter().map(|tag| String::from(*tag)).collect())
}

#[test]
fn database_insert_then_fetch_gives_identical_fields() {
    let (mut repo, database) = open(Database::new());
    let inserted = repo.insert(number(6), name("Charizard"), types(&["Fire", "Electric"])).unwrap();
    assert_eq!(inserted.into_fields(), entry(6, "Charizard", &["Fire", "Electric"]));
    assert_eq!(database.count("pokemons"), 1);
    assert_eq!(database.count("types"), 2);
    let fetched = repo.fetch_one(number(6)).unwrap();
    assert_eq!(fetched.into_fields(), entry(6, "Charizard", &["Fire", "Electric"]));
}

#[test]
fn database_second_insert_conflicts_and_changes_nothing() {
    let (mut repo, database) = open(Database::new());
    assert!(repo.insert(number(25), name("Pikachu"), types(&["Electric"])).is_ok());
    assert!(matches!(
        repo.insert(number(25), name("Raichu"), types(&["Fire", "Fire"])),
        Err(InsertError::Conflict)
    ));
    assert_eq!(
        repo.fetch_one(number(25)).unwrap().into_fields(),
        entry(25, "Pikachu", &["Electric"])
    );
    assert_eq!(database.count("pokemons"), 1);
    assert_eq!(database.count("types"), 1);
    assert!(database.connection.is_autocommit());
}

#[test]
fn database_missing_number_is_not_found() {
    let (mut repo, database) = open(Database::new());
    assert!(matches!(repo.fetch_one(number(25)), Err(FetchOneError::NotFound)));
    assert!(matches!(repo.delete(number(25)), Err(DeleteError::NotFound)));
    assert!(database.connection.is_autocommit());
}

#[test]
fn database_delete_removes_the_entry_and_its_tags() {
    let (mut repo, database) = open(Database::new());
    assert!(repo.insert(number(4), name("Charmander"), types(&["Fire"])).is_ok());
    assert!(repo.insert(number(6), name("Charizard"), types(&["Fire", "Electric"])).is_ok());
    assert_eq!(repo.delete(number(6)), Ok(()));
    assert_eq!(database.count("pokemons"), 1);
    assert_eq!(database.count("types"), 1);
    assert!(matches!(repo.fetch_one(number(6)), Err(FetchOneError::NotFound)));
    assert!(matches!(repo.delete(number(6)), Err(DeleteError::NotFound)));
    assert_eq!(repo.fetch_one(number(4)).unwrap().into_fields(), entry(4, "Charmander", &["Fire"]));
}

#[test]
fn database_lists_by_ascending_number() {
    let (mut repo, database) = open(Database::new());
    assert!(repo.fetch_all().unwrap().is_empty());
    assert!(repo.insert(number(25), name("Pikachu"), types(&["Electric"])).is_ok());
    assert!(repo.insert(number(4), name("Charmander"), types(&["Fire"])).is_ok());
    assert!(repo.insert(number(6), name("Charizard"), types(&["Electric", "Fire"])).is_ok());
    let listed: Vec<(u16, String, Vec<String>)> =
        repo.fetch_all().unwrap().into_iter().map(Pokemon::into_fields).collect();
    assert_eq!(
        listed,
        vec![
            entry(4, "Charmander", &["Fire"]),
            entry(6, "Charizard", &["Electric", "Fire"]),
            entry(25, "Pikachu", &["Electric"]),
        ]
    );
}

#[test]
fn database_insert_that_fails_on_a_tag_leaves_no_row() {
    let (mut repo, database) = open(Database::with_schema(
        "create table types (pokemon_number integer not null references pokemons (number), \
         name text not null check (name <> 'Fire'))",
    ));
    assert!(matches!(
        repo.insert(number(6), name("Charizard"), types(&["Electric", "Fire"])),
        Err(InsertError::Unknown)
    ));
    assert_eq!(database.count("pokemons"), 0);
    assert_eq!(database.count("types"), 0);
    assert!(database.connection.is_autocommit());
    assert!(matches!(repo.fetch_one(number(6)), Err(FetchOneError::NotFound)));
    assert!(repo.insert(number(6), name("Zapdos"), types(&["Electric"])).is_ok());
    assert_eq!(database.count("pokemons"), 1);
    assert_eq!(database.count("types"), 1);
}

#[test]
fn database_answers_unknown_for_stored_data_that_is_invalid() {
    let (repo, database) = open(Database::new());
    database.connection.execute("insert into pokemons (number, name) values (25, '')", ()).unwrap();
    database
        .connection
        .execute("insert into types (pokemon_number, name) values (25, 'Electric')", ())
        .unwrap();
    assert!(matches!(repo.fetch_one(number(25)), Err(FetchOneError::Unknown)));
    assert!(matches!(repo.fetch_all(), Err(FetchAllError::Unknown)));
    let (repo, database) = open(Database::new());
    database
        .connection
        .execute("insert into pokemons (number, name) values (25, 'Pikachu')", ())
        .unwrap();
    assert!(matches!(repo.fetch_one(number(25)), Err(FetchOneError::Unknown)));
    let (repo, database) = open(Database::new());
    database
        .connection
        .execute("insert into pokemons (number, name) values (70000, 'Pikachu')", ())
        .unwrap();
    assert!(matches!(repo.fetch_all(), Err(FetchAllError::Unknown)));
}

#[test]
fn database_answers_unknown_without_its_tables() {
    let (mut repo, database) =
        open(Database { connection: Connection::open_in_memory().unwrap() });
    assert!(matches!(
        repo.insert(number(25), name("Pikachu"), types(&["Electric"])),
        Err(InsertError::Unknown)
    ));
    assert!(matches!(repo.fetch_all(), Err(FetchAllError::Unknown)));
    assert!(matches!(repo.fetch_one(number(25)), Err(FetchOneError::Unknown)));
    assert!(matches!(repo.delete(number(25)), Err(DeleteError::Unknown)));
    assert!(database.connection.is_autocommit());
}

#[test]
fn database_scenario_through_the_use_cases() {
    let (mut repo, database) = open(Database::new());
    let request = |text: &str| create_pokemon::Request {
        number: 25,
        name: String::from(text),
        types: vec![String::from("Electric")],
    };
    let created = create_pokemon::execute(&mut repo, request("Pikachu")).unwrap();
    assert_eq!(
        (created.number, created.name, created.types),
        entry(25, "Pikachu", &["Electric"])
    );
    let all = fetch_all_pokemons::execute(&repo).unwrap();
    assert_eq!(all.len(), 1);
    assert_eq!(
        (all[0].number, all[0].name.clone(), all[0].types.clone()),
        entry(25, "Pikachu", &["Electric"])
    );
    assert!(matches!(
        create_pokemon::execute(&mut repo, request("Raichu")),
        Err(create_pokemon::Error::Conflict)
    ));
    assert_eq!(
        delete_pokemon::execute(&mut repo, delete_pokemon::Request { number: 25 }),
        Ok(())
    );
    assert!(matches!(
        fetch_pokemon::execute(&repo, fetch_pokemon::Request { number: 25 }),
        Err(fetch_pokemon::Error::NotFound)
    ));
    assert_eq!(database.count("pokemons"), 0);
    assert_eq!(database.count("types"), 0);
}
