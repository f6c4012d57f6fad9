use pokedex::domain::entities::{Pokemon, PokemonName, PokemonNumber, PokemonTypes};
use pokedex::repositories::pokemon::sqlite::{
    ConnectRun, DeleteRun, FetchAllRun, FetchOneRun, InsertRun, SqlCommand, SqlReply,
};
use pokedex::repositories::pokemon::{
    DeleteError, FetchAllError, FetchOneError, InsertError, Repository, Run, Service,
    SqliteRepository, Step,
};
use std::cell::RefCell;

fn number(n: u16) -> PokemonNumber {
    PokemonNumber::try_from(n).unwrap()
}

fn name(text: &str) -> PokemonName {
    PokemonName::try_from(String::from(text)).unwrap()
}

fn types(tags: &[&str]) -> PokemonTypes {
    PokemonTypes::try_from(tags.iter().map(|tag| String::from(*tag)).collect::<Vec<String>>())
        .unwrap()
}

fn taken() -> SqlReply {
    SqlReply::Failed(Some(String::from("UNIQUE constraint failed: pokemons.number")))
}

/// The command as text: its statement and its parameters.
fn show(command: &SqlCommand) -> String {
    let parameters = match command {
        SqlCommand::InsertPokemon { number, name } | SqlCommand::InsertType { number, name } => {
            format!(" [{}, {}]", number, name)
        }
        SqlCommand::SelectPokemon { number }
        | SqlCommand::SelectTypes { number }
        | SqlCommand::DeletePokemon { number }
        | SqlCommand::DeleteTypes { number } => format!(" [{}]", number),
        _ => String::new(),
    };
    format!("{}{}", command.statement(), parameters)
}

/// Runs an insertion on the replies; gives the commands and the answer.
fn insert(
    n: u16,
    text: &str,
    tags: &[&str],
    replies: Vec<SqlReply>,
) -> (Vec<String>, Option<Result<Pokemon, InsertError>>) {
    let (mut run, command) = InsertRun::start(number(n), name(text), types(tags));
    let mut commands = vec![show(&command)];
    for reply in replies {
        match run.advance(reply) {
            Step::Perform(next, command) => {
                commands.push(show(&command));
                run = next;
            }
            Step::Finish(answer) => return (commands, Some(answer)),
        }
    }
    (commands, None)
}

fn delete(n: u16, replies: Vec<SqlReply>) -> (Vec<String>, Option<Result<(), DeleteError>>) {
    let (mut run, command) = DeleteRun::start(number(n));
    let mut commands = vec![show(&command)];
    for reply in replies {
        match run.advance(reply) {
            Step::Perform(next, command) => {
                commands.push(show(&command));
                run = next;
            }
            Step::Finish(answer) => return (commands, Some(answer)),
        }
    }
    (commands, None)
}

fn fetch_one(n: u16, replies: Vec<SqlReply>) -> (Vec<String>, Option<Result<Pokemon, FetchOneError>>) {
    let (mut run, command) = FetchOneRun::start(number(n));
    let mut commands = vec![show(&command)];
    for reply in replies {
        match run.advance(reply) {
            Step::Perform(next, command) => {
                commands.push(show(&command));
                run = next;
            }
            Step::Finish(answer) => return (commands, Some(answer)),
        }
    }
    (commands, None)
}

fn fetch_all(replies: Vec<SqlReply>) -> (Vec<String>, Option<Result<Vec<Pokemon>, FetchAllError>>) {
    let (mut run, command) = FetchAllRun::start();
    let mut commands = vec![show(&command)];
    for reply in replies {
        match run.advance(reply) {
            Step::Perform(next, command) => {
                commands.push(show(&command));
                run = next;
            }
            Step::Finish(answer) => return (commands, Some(answer)),
        }
    }
    (commands, None)
}

fn ok() -> SqlReply {
    SqlReply::Changed(1)
}

fn tag_rows(tags: &[&str]) -> SqlReply {
    SqlReply::Types(tags.iter().map(|tag| String::from(*tag)).collect())
}

fn rows(found: &[(u16, &str)]) -> SqlReply {
    SqlReply::Pokemons(found.iter().map(|(n, text)| (*n, String::from(*text))).collect())
}

#[test]
fn sqlite_statements_are_spelled_out() {
    let text = |command: SqlCommand| String::from(command.statement());
    assert_eq!(text(SqlCommand::Begin), "begin deferred");
    assert_eq!(text(SqlCommand::Commit), "commit");
    assert_eq!(text(SqlCommand::Rollback), "rollback");
    assert_eq!(
        text(SqlCommand::InsertPokemon { number: 1, name: String::new() }),
        "insert into pokemons (number, name) values (?, ?)"
    );
    assert_eq!(
        text(SqlCommand::InsertType { number: 1, name: String::new() }),
        "insert into types (pokemon_number, name) values (?, ?)"
    );
    assert_eq!(text(SqlCommand::SelectPokemons), "select number, name from pokemons order by number");
    assert_eq!(
        text(SqlCommand::SelectPokemon { number: 1 }),
        "select number, name from pokemons where number = ?"
    );
    assert_eq!(
        text(SqlCommand::SelectTypes { number: 1 }),
        "select name from types where pokemon_number = ? order by rowid"
    );
    assert_eq!(text(SqlCommand::DeletePokemon { number: 1 }), "delete from pokemons where number = ?");
    assert_eq!(text(SqlCommand::DeleteTypes { number: 1 }), "delete from types where pokemon_number = ?");
    assert_eq!(text(SqlCommand::EnableForeignKeys), "pragma foreign_keys = 1");
}

#[test]
fn sqlite_replies_are_told_apart() {
    assert!(SqlReply::Changed(0).is_changed());
    assert!(!SqlReply::Failed(None).is_changed());
    assert!(!tag_rows(&[]).is_changed());
    assert!(!rows(&[]).is_changed());
    assert!(taken().is_number_taken());
    assert!(!SqlReply::Failed(None).is_number_taken());
    assert!(!SqlReply::Failed(Some(String::from("UNIQUE constraint failed: types.name")))
        .is_number_taken());
    assert!(!SqlReply::Changed(1).is_number_taken());
}

fn connected(reply: SqlReply) -> Result<(), ()> {
    let (run, command) = ConnectRun::start();
    assert!(matches!(command, SqlCommand::EnableForeignKeys));
    match run.advance(reply) {
        Step::Finish(answer) => answer,
        Step::Perform(..) => unreachable!(),
    }
}

#[test]
fn sqlite_connection_is_ready_when_the_pragma_ran() {
    assert_eq!(connected(SqlReply::Changed(0)), Ok(()));
    assert_eq!(connected(SqlReply::Failed(None)), Err(()));
    assert_eq!(connected(tag_rows(&[])), Err(()));
}

#[test]
fn sqlite_insert_writes_entry_then_tags_then_commits() {
    let (commands, answer) =
        insert(6, "Charizard", &["Fire", "Electric"], vec![ok(), ok(), ok(), ok(), ok()]);
    assert_eq!(
        commands,
        vec![
            "begin deferred",
            "insert into pokemons (number, name) values (?, ?) [6, Charizard]",
            "insert into types (pokemon_number, name) values (?, ?) [6, Fire]",
            "insert into types (pokemon_number, name) values (?, ?) [6, Electric]",
            "commit",
        ]
    );
    let pokemon = answer.unwrap().unwrap();
    assert_eq!(
        pokemon.into_fields(),
        (6, String::from("Charizard"), vec![String::from("Fire"), String::from("Electric")])
    );
}

#[test]
fn sqlite_insert_is_not_over_before_the_commit_ran() {
    let (commands, answer) = insert(25, "Pikachu", &["Electric"], vec![ok(), ok(), ok()]);
    assert_eq!(commands.len(), 4);
    assert_eq!(commands[3], "commit");
    assert!(answer.is_none());
}

#[test]
fn sqlite_insert_answers_unknown_when_no_transaction_opens() {
    let (commands, answer) = insert(25, "Pikachu", &["Electric"], vec![SqlReply::Failed(None)]);
    assert_eq!(commands, vec!["begin deferred"]);
    assert!(matches!(answer, Some(Err(InsertError::Unknown))));
}

#[test]
fn sqlite_insert_conflicts_on_a_taken_number_and_rolls_back() {
    let (commands, answer) = insert(25, "Pikachu", &["Electric"], vec![ok(), taken(), ok()]);
    assert_eq!(
        commands,
        vec![
            "begin deferred",
            "insert into pokemons (number, name) values (?, ?) [25, Pikachu]",
            "rollback",
        ]
    );
    assert!(matches!(answer, Some(Err(InsertError::Conflict))));
}

#[test]
fn sqlite_insert_conflict_does_not_depend_on_the_rollback() {
    let (_, answer) =
        insert(25, "Pikachu", &["Electric"], vec![ok(), taken(), SqlReply::Failed(None)]);
    assert!(matches!(answer, Some(Err(InsertError::Conflict))));
}

#[test]
fn sqlite_insert_answers_unknown_on_another_failure_of_the_entry_row() {
    for failure in [
        SqlReply::Failed(None),
        SqlReply::Failed(Some(String::from("database is locked"))),
        SqlReply::Failed(Some(String::from("UNIQUE constraint failed: types.name"))),
        tag_rows(&[]),
    ] {
        let (commands, answer) = insert(25, "Pikachu", &["Electric"], vec![ok(), failure, ok()]);
        assert_eq!(commands.last().unwrap(), "rollback");
        assert!(matches!(answer, Some(Err(InsertError::Unknown))));
    }
}

#[test]
fn sqlite_insert_rolls_back_when_a_tag_row_fails() {
    let (commands, answer) = insert(
        6,
        "Charizard",
        &["Fire", "Electric"],
        vec![ok(), ok(), ok(), SqlReply::Failed(None), ok()],
    );
    assert_eq!(
        commands,
        vec![
            "begin deferred",
            "insert into pokemons (number, name) values (?, ?) [6, Charizard]",
            "insert into types (pokemon_number, name) values (?, ?) [6, Fire]",
            "insert into types (pokemon_number, name) values (?, ?) [6, Electric]",
            "rollback",
        ]
    );
    assert!(matches!(answer, Some(Err(InsertError::Unknown))));
    // A taken number is a conflict only on the row of the entry.
    let (commands, answer) =
        insert(6, "Charizard", &["Fire", "Electric"], vec![ok(), ok(), taken(), ok()]);
    assert_eq!(commands.len(), 4);
    assert_eq!(commands[3], "rollback");
    assert!(matches!(answer, Some(Err(InsertError::Unknown))));
}

#[test]
fn sqlite_insert_rolls_back_when_the_commit_fails() {
    let (commands, answer) =
        insert(25, "Pikachu", &["Electric"], vec![ok(), ok(), ok(), SqlReply::Failed(None), ok()]);
    assert_eq!(commands[3], "commit");
    assert_eq!(commands[4], "rollback");
    assert_eq!(commands.len(), 5);
    assert!(matches!(answer, Some(Err(InsertError::Unknown))));
}

#[test]
fn sqlite_fetch_one_reads_row_then_tags() {
    let (commands, answer) =
        fetch_one(25, vec![rows(&[(25, "Pikachu")]), tag_rows(&["Electric"])]);
    assert_eq!(
        commands,
        vec![
            "select number, name from pokemons where number = ? [25]",
            "select name from types where pokemon_number = ? order by rowid [25]",
        ]
    );
    assert_eq!(
        answer.unwrap().unwrap().into_fields(),
        (25, String::from("Pikachu"), vec![String::from("Electric")])
    );
}

#[test]
fn sqlite_fetch_one_without_a_row_is_not_found() {
    let (commands, answer) = fetch_one(25, vec![rows(&[])]);
    assert_eq!(commands.len(), 1);
    assert!(matches!(answer, Some(Err(FetchOneError::NotFound))));
}

#[test]
fn sqlite_fetch_one_answers_unknown_on_failures_and_invalid_rows() {
    let unknown = |replies: Vec<SqlReply>| {
        assert!(matches!(fetch_one(25, replies).1, Some(Err(FetchOneError::Unknown))));
    };
    unknown(vec![SqlReply::Failed(None)]);
    unknown(vec![ok()]);
    unknown(vec![tag_rows(&["Electric"])]);
    unknown(vec![rows(&[(25, "Pikachu")]), SqlReply::Failed(None)]);
    unknown(vec![rows(&[(25, "Pikachu")]), rows(&[])]);
    unknown(vec![rows(&[(25, "Pikachu")]), tag_rows(&[])]);
    unknown(vec![rows(&[(25, "Pikachu")]), tag_rows(&["Water"])]);
    unknown(vec![rows(&[(25, "Pikachu")]), tag_rows(&["Fire", "Fire", "Fire"])]);
    unknown(vec![rows(&[(25, "")]), tag_rows(&["Electric"])]);
    unknown(vec![rows(&[(0, "Pikachu")]), tag_rows(&["Electric"])]);
    unknown(vec![rows(&[(899, "Pikachu")]), tag_rows(&["Electric"])]);
}

#[test]
fn sqlite_fetch_all_reads_the_tags_of_each_row_in_turn() {
    let (commands, answer) = fetch_all(vec![
        rows(&[(4, "Charmander"), (25, "Pikachu"), (6, "Charizard")]),
        tag_rows(&["Fire"]),
        tag_rows(&["Electric"]),
        tag_rows(&["Fire", "Electric"]),
    ]);
    assert_eq!(
        commands,
        vec![
            "select number, name from pokemons order by number",
            "select name from types where pokemon_number = ? order by rowid [4]",
            "select name from types where pokemon_number = ? order by rowid [25]",
            "select name from types where pokemon_number = ? order by rowid [6]",
        ]
    );
    let listed: Vec<(u16, String, Vec<String>)> =
        answer.unwrap().unwrap().into_iter().map(Pokemon::into_fields).collect();
    assert_eq!(
        listed,
        vec![
            (4, String::from("Charmander"), vec![String::from("Fire")]),
            (25, String::from("Pikachu"), vec![String::from("Electric")]),
            (6, String::from("Charizard"), vec![String::from("Fire"), String::from("Electric")]),
        ]
    );
}

#[test]
fn sqlite_fetch_all_of_no_rows_is_empty() {
    let (commands, answer) = fetch_all(vec![rows(&[])]);
    assert_eq!(commands.len(), 1);
    assert!(answer.unwrap().unwrap().is_empty());
}

#[test]
fn sqlite_fetch_all_answers_unknown_on_failures_and_invalid_rows() {
    let unknown = |replies: Vec<SqlReply>| {
        assert!(matches!(fetch_all(replies).1, Some(Err(FetchAllError::Unknown))));
    };
    unknown(vec![SqlReply::Failed(None)]);
    unknown(vec![ok()]);
    unknown(vec![tag_rows(&[])]);
    unknown(vec![rows(&[(4, "Charmander")]), SqlReply::Failed(None)]);
    unknown(vec![rows(&[(4, "Charmander")]), tag_rows(&[])]);
    unknown(vec![rows(&[(4, "Charmander"), (25, "Pikachu")]), tag_rows(&["Fire"]), tag_rows(&["Ice"])]);
    unknown(vec![rows(&[(4, "Charmander"), (0, "Pikachu")]), tag_rows(&["Fire"]), tag_rows(&["Fire"])]);
    unknown(vec![rows(&[(4, ""), (25, "Pikachu")]), tag_rows(&["Fire"])]);
}

#[test]
fn sqlite_delete_removes_tags_then_entry_then_commits() {
    let (commands, answer) = delete(25, vec![ok(), SqlReply::Changed(2), ok(), ok()]);
    assert_eq!(
        commands,
        vec![
            "begin deferred",
            "delete from types where pokemon_number = ? [25]",
            "delete from pokemons where number = ? [25]",
            "commit",
        ]
    );
    assert_eq!(answer, Some(Ok(())));
}

#[test]
fn sqlite_delete_of_no_row_is_not_found_and_rolls_back() {
    let (commands, answer) =
        delete(25, vec![ok(), SqlReply::Changed(0), SqlReply::Changed(0), ok()]);
    assert_eq!(commands.len(), 4);
    assert_eq!(commands[3], "rollback");
    assert_eq!(answer, Some(Err(DeleteError::NotFound)));
}

#[test]
fn sqlite_delete_answers_unknown_on_failures() {
    assert_eq!(delete(25, vec![SqlReply::Failed(None)]).1, Some(Err(DeleteError::Unknown)));
    for replies in [
        vec![ok(), SqlReply::Failed(None), ok()],
        vec![ok(), ok(), SqlReply::Failed(None), ok()],
        vec![ok(), ok(), rows(&[]), ok()],
        vec![ok(), ok(), ok(), SqlReply::Failed(None), ok()],
    ] {
        let (commands, answer) = delete(25, replies);
        assert_eq!(commands.last().unwrap(), "rollback");
        assert_eq!(answer, Some(Err(DeleteError::Unknown)));
    }
}

/// A connection that answers from a script and keeps what it was asked.
struct Script {
    replies: RefCell<Vec<SqlReply>>,
    asked: RefCell<Vec<String>>,
}

impl Script {
    fn new(mut replies: Vec<SqlReply>) -> Self {
        replies.reverse();
        Script { replies: RefCell::new(replies), asked: RefCell::new(vec![]) }
    }
}

impl Service<SqlCommand, SqlReply> for &Script {
    fn perform(&self, command: &SqlCommand) -> SqlReply {
        self.asked.borrow_mut().push(show(command));
        self.replies.borrow_mut().pop().unwrap_or(SqlReply::Failed(None))
    }
}

#[test]
fn sqlite_repository_needs_a_ready_connection() {
    let script = Script::new(vec![ok()]);
    assert!(SqliteRepository::try_new(&script).is_ok());
    assert_eq!(*script.asked.borrow(), vec!["pragma foreign_keys = 1"]);
    let script = Script::new(vec![SqlReply::Failed(None)]);
    assert!(SqliteRepository::try_new(&script).is_err());
    let script = Script::new(vec![rows(&[])]);
    assert!(SqliteRepository::try_new(&script).is_err());
}

#[test]
fn sqlite_repository_performs_the_commands_of_its_runs() {
    let script = Script::new(vec![
        ok(),
        ok(),
        ok(),
        ok(),
        ok(),
        rows(&[(25, "Pikachu")]),
        tag_rows(&["Electric"]),
        rows(&[(4, "Charmander"), (25, "Pikachu")]),
        tag_rows(&["Fire"]),
        tag_rows(&["Electric"]),
        ok(),
        ok(),
        ok(),
        ok(),
    ]);
    let mut repo = SqliteRepository::try_new(&script).unwrap();
    let inserted = repo.insert(number(25), name("Pikachu"), types(&["Electric"])).unwrap();
    assert_eq!(inserted.into_fields(), (25, String::from("Pikachu"), vec![String::from("Electric")]));
    let fetched = repo.fetch_one(number(25)).unwrap();
    assert_eq!(fetched.into_fields(), (25, String::from("Pikachu"), vec![String::from("Electric")]));
    let listed: Vec<u16> =
        repo.fetch_all().unwrap().into_iter().map(|pokemon| pokemon.number.value()).collect();
    assert_eq!(listed, vec![4, 25]);
    assert_eq!(repo.delete(number(25)), Ok(()));
    assert_eq!(
        *script.asked.borrow(),
        vec![
            "pragma foreign_keys = 1",
            "begin deferred",
            "insert into pokemons (number, name) values (?, ?) [25, Pikachu]",
            "insert into types (pokemon_number, name) values (?, ?) [25, Electric]",
            "commit",
            "select number, name from pokemons where number = ? [25]",
            "select name from types where pokemon_number = ? order by rowid [25]",
            "select number, name from pokemons order by number",
            "select name from types where pokemon_number = ? order by rowid [4]",
            "select name from types where pokemon_number = ? order by rowid [25]",
            "begin deferred",
            "delete from types where pokemon_number = ? [25]",
            "delete from pokemons where number = ? [25]",
            "commit",
        ]
    );
    assert!(script.replies.borrow().is_empty());
}

#[test]
fn sqlite_repository_stops_asking_once_a_run_has_answered() {
    let script = Script::new(vec![ok(), ok(), taken(), ok(), ok(), ok()]);
    let mut repo = SqliteRepository::try_new(&script).unwrap();
    assert!(matches!(
        repo.insert(number(25), name("Pikachu"), types(&["Electric", "Fire"])),
        Err(InsertError::Conflict)
    ));
    assert_eq!(script.asked.borrow().len(), 4);
    assert_eq!(script.asked.borrow()[3], "rollback");
    assert_eq!(script.replies.borrow().len(), 2);
    let script = Script::new(vec![ok(), rows(&[])]);
    let repo = SqliteRepository::try_new(&script).unwrap();
    assert!(matches!(repo.fetch_one(number(25)), Err(FetchOneError::NotFound)));
    assert!(matches!(repo.fetch_all(), Err(FetchAllError::Unknown)));
    assert_eq!(script.asked.borrow().len(), 3);
}
