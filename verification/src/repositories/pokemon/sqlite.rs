//! The relational backend: two tables, `pokemons(number, name)` with one row
//! per entry and `types(pokemon_number, name)` with one row per tag of an
//! entry.
//!
//! This module decides; it does not touch a database. Each operation is a
//! run, whose commands the repository performs in order on its connection,
//! a `Service` for `SqlCommand` and `SqlReply`. No other run uses the
//! connection meanwhile.

use crate::domain::entities::{
    entry_is_valid, fields, texts, Pokemon, PokemonName, PokemonNumber, PokemonTypes, PokemonView,
};
use crate::repositories::pokemon::run::{
    commands_of, drive, driven, lemma_trace_goes_on, lemma_trace_lengths, replies_of, trace, Protocol, Run, Service,
    Step,
};
use crate::repositories::pokemon::{
    restored, result_view, views, DeleteError, FetchAllError, FetchOneError, InsertError,
    Repository,
};
use vstd::prelude::*;

verus! {

/// One statement for the database. Its parameters are the fields of the
/// variant, in their order.
#[derive(Debug)]
pub enum SqlCommand {
    /// Opens a transaction.
    Begin,
    /// Makes the open transaction permanent.
    Commit,
    /// Undoes the open transaction.
    Rollback,
    /// Writes the row of an entry.
    InsertPokemon { number: u16, name: String },
    /// Writes the row of one tag of an entry.
    InsertType { number: u16, name: String },
    /// Reads the rows of all entries, by ascending number.
    SelectPokemons,
    /// Reads the row of the entry with that number.
    SelectPokemon { number: u16 },
    /// Reads the tags of the entry with that number, in the order in which
    /// they were written.
    SelectTypes { number: u16 },
    /// Removes the row of the entry with that number.
    DeletePokemon { number: u16 },
    /// Removes the tag rows of the entry with that number.
    DeleteTypes { number: u16 },
    /// Has the connection enforce the reference from tag rows to entries.
    EnableForeignKeys,
}

/// A statement as plain values.
pub enum SqlCommandView {
    Begin,
    Commit,
    Rollback,
    InsertPokemon { number: u16, name: Seq<char> },
    InsertType { number: u16, name: Seq<char> },
    SelectPokemons,
    SelectPokemon { number: u16 },
    SelectTypes { number: u16 },
    DeletePokemon { number: u16 },
    DeleteTypes { number: u16 },
    EnableForeignKeys,
}

impl View for SqlCommand {
    type V = SqlCommandView;

    open spec fn view(&self) -> SqlCommandView {
        match *self {
            SqlCommand::Begin => SqlCommandView::Begin,
            SqlCommand::Commit => SqlCommandView::Commit,
            SqlCommand::Rollback => SqlCommandView::Rollback,
            SqlCommand::InsertPokemon { number, name } => SqlCommandView::InsertPokemon {
                number,
                name: name@,
            },
            SqlCommand::InsertType { number, name } => SqlCommandView::InsertType {
                number,
                name: name@,
            },
            SqlCommand::SelectPokemons => SqlCommandView::SelectPokemons,
            SqlCommand::SelectPokemon { number } => SqlCommandView::SelectPokemon { number },
            SqlCommand::SelectTypes { number } => SqlCommandView::SelectTypes { number },
            SqlCommand::DeletePokemon { number } => SqlCommandView::DeletePokemon { number },
            SqlCommand::DeleteTypes { number } => SqlCommandView::DeleteTypes { number },
            SqlCommand::EnableForeignKeys => SqlCommandView::EnableForeignKeys,
        }
    }
}

/// The text of a statement; `?` marks a parameter.
pub open spec fn statement_text(command: SqlCommandView) -> Seq<char> {
    match command {
        SqlCommandView::Begin => "begin deferred"@,
        SqlCommandView::Commit => "commit"@,
        SqlCommandView::Rollback => "rollback"@,
        SqlCommandView::InsertPokemon { .. } => "insert into pokemons (number, name) values (?, ?)"@,
        SqlCommandView::InsertType { .. } => "insert into types (pokemon_number, name) values (?, ?)"@,
        SqlCommandView::SelectPokemons => "select number, name from pokemons order by number"@,
        SqlCommandView::SelectPokemon { .. } => "select number, name from pokemons where number = ?"@,
        SqlCommandView::SelectTypes { .. } => "select name from types where pokemon_number = ? order by rowid"@,
        SqlCommandView::DeletePokemon { .. } => "delete from pokemons where number = ?"@,
        SqlCommandView::DeleteTypes { .. } => "delete from types where pokemon_number = ?"@,
        SqlCommandView::EnableForeignKeys => "pragma foreign_keys = 1"@,
    }
}

impl SqlCommand {
    /// The text of the statement; `?` marks a parameter.
    pub fn statement(&self) -> (sql: &'static str)
        ensures
            sql@ == statement_text(self@),
    {
        match self {
            SqlCommand::Begin => "begin deferred",
            SqlCommand::Commit => "commit",
            SqlCommand::Rollback => "rollback",
            SqlCommand::InsertPokemon { .. } => "insert into pokemons (number, name) values (?, ?)",
            SqlCommand::InsertType { .. } => "insert into types (pokemon_number, name) values (?, ?)",
            SqlCommand::SelectPokemons => "select number, name from pokemons order by number",
            SqlCommand::SelectPokemon { .. } => "select number, name from pokemons where number = ?",
            SqlCommand::SelectTypes { .. } => "select name from types where pokemon_number = ? order by rowid",
            SqlCommand::DeletePokemon { .. } => "delete from pokemons where number = ?",
            SqlCommand::DeleteTypes { .. } => "delete from types where pokemon_number = ?",
            SqlCommand::EnableForeignKeys => "pragma foreign_keys = 1",
        }
    }
}

/// What the database answered to one statement.
#[derive(Debug)]
pub enum SqlReply {
    /// The statement ran and changed that many rows.
    Changed(usize),
    /// The rows of entries that a query found: number and name.
    Pokemons(Vec<(u16, String)>),
    /// The tags that a query found.
    Types(Vec<String>),
    /// The statement failed, with the message of the database where it
    /// gave one.
    Failed(Option<String>),
}

/// A reply as plain values.
pub enum SqlReplyView {
    Changed(usize),
    Pokemons(Seq<(u16, Seq<char>)>),
    Types(Seq<Seq<char>>),
    Failed(Option<Seq<char>>),
}

/// The rows of entries as plain values, in order.
pub open spec fn row_views(rows: Seq<(u16, String)>) -> Seq<(u16, Seq<char>)> {
    Seq::new(rows.len(), |i: int| (rows[i].0, rows[i].1@))
}

impl View for SqlReply {
    type V = SqlReplyView;

    open spec fn view(&self) -> SqlReplyView {
        match *self {
            SqlReply::Changed(rows) => SqlReplyView::Changed(rows),
            SqlReply::Pokemons(rows) => SqlReplyView::Pokemons(row_views(rows@)),
            SqlReply::Types(tags) => SqlReplyView::Types(texts(tags@)),
            SqlReply::Failed(Some(message)) => SqlReplyView::Failed(Some(message@)),
            SqlReply::Failed(None) => SqlReplyView::Failed(None),
        }
    }
}

/// Whether `reply` reports that a row with the number of a new entry
/// exists already.
pub open spec fn is_number_taken(reply: SqlReplyView) -> bool {
    reply == SqlReplyView::Failed(Some("UNIQUE constraint failed: pokemons.number"@))
}

impl SqlReply {
    /// Whether the statement ran.
    pub fn is_changed(&self) -> (changed: bool)
        ensures
            changed == (self@ is Changed),
    {
        match self {
            SqlReply::Changed(_) => true,
            _ => false,
        }
    }

    /// Whether the reply reports that a row with the number of a new entry
    /// exists already.
    pub fn is_number_taken(&self) -> (taken: bool)
        ensures
            taken == is_number_taken(self@),
    {
        match self {
            SqlReply::Failed(Some(message)) => *message
                == "UNIQUE constraint failed: pokemons.number".to_owned(),
            _ => false,
        }
    }
}

/// The move of the run that readies a connection: the connection is ready
/// when the command ran.
pub open spec fn connect_step(reply: SqlReplyView) -> Step<(), SqlCommandView, Result<(), ()>> {
    if reply is Changed {
        Step::Finish(Ok(()))
    } else {
        Step::Finish(Err(()))
    }
}

/// The run that readies a connection which was just opened.
#[derive(Debug)]
pub struct ConnectRun {}

impl ConnectRun {
    /// Starts the run: its one command has the connection enforce the
    /// reference from tag rows to entries.
    pub fn start() -> (run: (Self, SqlCommand))
        ensures
            run.1@ == SqlCommandView::EnableForeignKeys,
    {
        (ConnectRun {  }, SqlCommand::EnableForeignKeys)
    }
}

impl Protocol<SqlCommand, SqlReply> for ConnectRun {
    type State = ();

    type AnswerView = Result<(), ()>;

    open spec fn step(state: (), reply: SqlReplyView) -> Step<(), SqlCommandView, Result<(), ()>> {
        connect_step(reply)
    }

    open spec fn rank(state: ()) -> (nat, nat) {
        (0, 0)
    }

    proof fn lemma_rank_falls(state: (), reply: SqlReplyView) {
    }
}

impl Run<SqlCommand, SqlReply> for ConnectRun {
    type Answer = Result<(), ()>;

    open spec fn state(&self) -> () {
        ()
    }

    open spec fn answer_view(answer: Result<(), ()>) -> Result<(), ()> {
        answer
    }

    /// Takes the reply to the one command of the run and answers.
    fn advance(self, reply: SqlReply) -> (step: Step<Self, SqlCommand, Result<(), ()>>)
        ensures
            step matches Step::Finish(answer) && connect_step(reply@) == Step::<(), SqlCommandView, Result<(), ()>>::Finish(
                answer,
            ),
    {
        if reply.is_changed() {
            Step::Finish(Ok(()))
        } else {
            Step::Finish(Err(()))
        }
    }
}

/// How far an insertion has come.
#[derive(Clone, Copy, Debug, PartialEq, Eq, Structural)]
pub enum InsertStage {
    /// The transaction is being opened.
    Begin,
    /// The row of the entry is being written.
    Primary,
    /// That many tag rows were sent; the last of them is being written.
    Tag(usize),
    /// The transaction is being made permanent.
    Commit,
    /// The transaction is being undone, after this failure.
    Rollback(InsertError),
}

/// An insertion under way, as plain values.
pub struct InsertView {
    pub entry: PokemonView,
    pub stage: InsertStage,
}

/// A move of an insertion, as plain values.
pub type InsertStep = Step<InsertView, SqlCommandView, Result<PokemonView, InsertError>>;

/// The move of an insertion in `state` on `reply`.
///
/// The rows of the entry and of its tags are written inside one
/// transaction, the entry first. The first reply that is not `Changed` ends
/// the writing: the transaction is undone, if it was opened, and the
/// insertion answers `Conflict` where the reply to the row of the entry
/// reports the number as taken, and `Unknown` in every other case.
pub open spec fn insert_step(state: InsertView, reply: SqlReplyView) -> InsertStep {
    let entry = state.entry;
    let ran = reply is Changed;
    let undo = |error: InsertError|
        Step::Perform(
            InsertView { entry, stage: InsertStage::Rollback(error) },
            SqlCommandView::Rollback,
        );
    match state.stage {
        InsertStage::Begin => if ran {
            Step::Perform(
                InsertView { entry, stage: InsertStage::Primary },
                SqlCommandView::InsertPokemon { number: entry.number, name: entry.name },
            )
        } else {
            Step::Finish(Err(InsertError::Unknown))
        },
        InsertStage::Primary => if ran {
            insert_next_tag(entry, 0)
        } else if is_number_taken(reply) {
            undo(InsertError::Conflict)
        } else {
            undo(InsertError::Unknown)
        },
        InsertStage::Tag(sent) => if ran {
            insert_next_tag(entry, sent)
        } else {
            undo(InsertError::Unknown)
        },
        InsertStage::Commit => if ran {
            Step::Finish(Ok(entry))
        } else {
            undo(InsertError::Unknown)
        },
        InsertStage::Rollback(error) => Step::Finish(Err(error)),
    }
}

/// The move of an insertion of `entry` after `sent` tag rows were written:
/// the next tag row, or the commit when there is none left.
pub open spec fn insert_next_tag(entry: PokemonView, sent: usize) -> InsertStep {
    if sent < entry.types.len() && sent < usize::MAX {
        Step::Perform(
            InsertView { entry, stage: InsertStage::Tag((sent + 1) as usize) },
            SqlCommandView::InsertType { number: entry.number, name: entry.types[sent as int] },
        )
    } else {
        Step::Perform(InsertView { entry, stage: InsertStage::Commit }, SqlCommandView::Commit)
    }
}

/// A bound on the moves that an insertion in `state` still makes.
pub open spec fn insert_moves_left(state: InsertView) -> nat {
    match state.stage {
        InsertStage::Begin => state.entry.types.len() + 5,
        InsertStage::Primary => state.entry.types.len() + 4,
        InsertStage::Tag(sent) => if sent <= state.entry.types.len() {
            (state.entry.types.len() - sent + 3) as nat
        } else {
            3
        },
        InsertStage::Commit => 2,
        InsertStage::Rollback(_) => 1,
    }
}

/// An insertion under way.
#[derive(Debug)]
pub struct InsertRun {
    pokemon: Pokemon,
    tags: Vec<String>,
    stage: InsertStage,
}

impl View for InsertRun {
    type V = InsertView;

    closed spec fn view(&self) -> InsertView {
        InsertView { entry: self.pokemon@, stage: self.stage }
    }
}

impl InsertRun {
    #[verifier::type_invariant]
    spec fn tags_match(self) -> bool {
        texts(self.tags@) == self.pokemon@.types
    }

    /// Starts the insertion of an entry: the first command opens the
    /// transaction.
    pub fn start(number: PokemonNumber, name: PokemonName, types: PokemonTypes) -> (run: (
        Self,
        SqlCommand,
    ))
        ensures
            run.0@ == (InsertView {
                entry: fields(number@, name@, types@),
                stage: InsertStage::Begin,
            }),
            run.1@ == SqlCommandView::Begin,
    {
        let tags = types.to_strings();
        let pokemon = Pokemon::new(number, name, types);
        (InsertRun { pokemon, tags, stage: InsertStage::Begin }, SqlCommand::Begin)
    }

    /// The move after `sent` tag rows were written.
    fn next_tag(pokemon: Pokemon, tags: Vec<String>, sent: usize) -> (step: Step<
        InsertRun,
        SqlCommand,
        Result<Pokemon, InsertError>,
    >)
        requires
            texts(tags@) == pokemon@.types,
        ensures
            step matches Step::Perform(next, command) && insert_next_tag(pokemon@, sent)
                == Step::<InsertView, SqlCommandView, Result<PokemonView, InsertError>>::Perform(
                next@,
                command@,
            ),
    {
        assert(tags@.len() == pokemon@.types.len());
        if sent < tags.len() {
            let number = pokemon.number.value();
            let name = tags[sent].clone();
            assert(name@ == texts(tags@)[sent as int]);
            Step::Perform(
                InsertRun { pokemon, tags, stage: InsertStage::Tag(sent + 1) },
                SqlCommand::InsertType { number, name },
            )
        } else {
            Step::Perform(InsertRun { pokemon, tags, stage: InsertStage::Commit }, SqlCommand::Commit)
        }
    }

    /// The move that undoes the transaction after `error`.
    fn undo(pokemon: Pokemon, tags: Vec<String>, error: InsertError) -> (step: Step<
        InsertRun,
        SqlCommand,
        Result<Pokemon, InsertError>,
    >)
        requires
            texts(tags@) == pokemon@.types,
        ensures
            step matches Step::Perform(next, command) && next@ == (InsertView {
                entry: pokemon@,
                stage: InsertStage::Rollback(error),
            }) && command@ == SqlCommandView::Rollback,
    {
        Step::Perform(
            InsertRun { pokemon, tags, stage: InsertStage::Rollback(error) },
            SqlCommand::Rollback,
        )
    }
}

impl Protocol<SqlCommand, SqlReply> for InsertRun {
    type State = InsertView;

    type AnswerView = Result<PokemonView, InsertError>;

    open spec fn step(state: InsertView, reply: SqlReplyView) -> InsertStep {
        insert_step(state, reply)
    }

    open spec fn rank(state: InsertView) -> (nat, nat) {
        (0, insert_moves_left(state))
    }

    proof fn lemma_rank_falls(state: InsertView, reply: SqlReplyView) {
    }
}

impl Run<SqlCommand, SqlReply> for InsertRun {
    type Answer = Result<Pokemon, InsertError>;

    open spec fn state(&self) -> InsertView {
        self@
    }

    open spec fn answer_view(answer: Result<Pokemon, InsertError>) -> Result<
        PokemonView,
        InsertError,
    > {
        result_view(answer)
    }

    /// Takes the reply to the command that was performed last and makes
    /// the next move.
    fn advance(self, reply: SqlReply) -> (step: Step<Self, SqlCommand, Result<Pokemon, InsertError>>)
        ensures
            match step {
                Step::Perform(next, command) => insert_step(self@, reply@) == Step::<
                    InsertView,
                    SqlCommandView,
                    Result<PokemonView, InsertError>,
                >::Perform(next@, command@),
                Step::Finish(answer) => insert_step(self@, reply@) == Step::<
                    InsertView,
                    SqlCommandView,
                    Result<PokemonView, InsertError>,
                >::Finish(result_view(answer)),
            },
    {
        proof {
            use_type_invariant(&self);
        }
        let ran = reply.is_changed();
        let InsertRun { pokemon, tags, stage } = self;
        match stage {
            InsertStage::Begin => if ran {
                let number = pokemon.number.value();
                let name = pokemon.name.as_str().to_owned();
                Step::Perform(
                    InsertRun { pokemon, tags, stage: InsertStage::Primary },
                    SqlCommand::InsertPokemon { number, name },
                )
            } else {
                Step::Finish(Err(InsertError::Unknown))
            },
            InsertStage::Primary => if ran {
                Self::next_tag(pokemon, tags, 0)
            } else if reply.is_number_taken() {
                Self::undo(pokemon, tags, InsertError::Conflict)
            } else {
                Self::undo(pokemon, tags, InsertError::Unknown)
            },
            InsertStage::Tag(sent) => if ran {
                Self::next_tag(pokemon, tags, sent)
            } else {
                Self::undo(pokemon, tags, InsertError::Unknown)
            },
            InsertStage::Commit => if ran {
                Step::Finish(Ok(pokemon))
            } else {
                Self::undo(pokemon, tags, InsertError::Unknown)
            },
            InsertStage::Rollback(error) => Step::Finish(Err(error)),
        }
    }
}

/// The commands that an insertion in `state` has performed by the time it
/// has taken `replies`, and its answer if that has come.
pub open spec fn insert_trace(state: InsertView, replies: Seq<SqlReplyView>) -> (
    Seq<SqlCommandView>,
    Option<Result<PokemonView, InsertError>>,
) {
    trace::<SqlCommand, SqlReply, InsertRun>(state, replies)
}

/// The commands that write the tags of `entry` from the one at `from` on.
pub open spec fn tag_commands(entry: PokemonView, from: int) -> Seq<SqlCommandView> {
    Seq::new(
        if 0 <= from <= entry.types.len() {
            (entry.types.len() - from) as nat
        } else {
            0
        },
        |i: int| SqlCommandView::InsertType { number: entry.number, name: entry.types[from + i] },
    )
}

/// The commands that an insertion in `state` performs when every statement
/// runs.
pub open spec fn commands_to_commit(state: InsertView) -> Seq<SqlCommandView> {
    let entry = state.entry;
    match state.stage {
        InsertStage::Begin => seq![
            SqlCommandView::InsertPokemon { number: entry.number, name: entry.name },
        ] + tag_commands(entry, 0) + seq![SqlCommandView::Commit],
        InsertStage::Primary => tag_commands(entry, 0) + seq![SqlCommandView::Commit],
        InsertStage::Tag(sent) => tag_commands(entry, sent as int) + seq![SqlCommandView::Commit],
        InsertStage::Commit => Seq::empty(),
        InsertStage::Rollback(_) => Seq::empty(),
    }
}

/// Whether no `Commit` among `commands` ran, where `replies[i + 1]` answers
/// `commands[i]`.
pub open spec fn no_commit_ran(commands: Seq<SqlCommandView>, replies: Seq<SqlReplyView>) -> bool {
    forall|i: int|
        0 <= i < commands.len() && i + 1 < replies.len() && #[trigger] commands[i]
            == SqlCommandView::Commit ==> !(replies[i + 1] is Changed)
}

/// An insertion has answered once it has taken as many replies as it has
/// moves left, and it has performed one command for each reply but the one
/// that it answered on.
proof fn lemma_insert_trace_ends(state: InsertView, replies: Seq<SqlReplyView>)
    ensures
        ({
            let (commands, answer) = insert_trace(state, replies);
            &&& answer is Some ==> commands.len() < replies.len()
            &&& answer is None ==> commands.len() == replies.len()
            &&& replies.len() >= insert_moves_left(state) ==> answer is Some
        }),
    decreases replies.len(),
{
    if replies.len() > 0 {
        match insert_step(state, replies[0]) {
            Step::Finish(_) => {},
            Step::Perform(next, _) => {
                lemma_insert_trace_ends(next, replies.drop_first());
            },
        }
    }
}

/// An insertion that answers with an entry has performed the commands up
/// to the commit, and every one of them ran.
#[verifier::spinoff_prover]
proof fn lemma_insert_trace_stored(state: InsertView, replies: Seq<SqlReplyView>)
    requires
        state.entry.types.len() <= usize::MAX,
        state.stage matches InsertStage::Tag(sent) ==> sent <= state.entry.types.len(),
        insert_trace(state, replies).1 matches Some(Ok(_)),
    ensures
        ({
            let (commands, answer) = insert_trace(state, replies);
            &&& answer == Some(Ok::<PokemonView, InsertError>(state.entry))
            &&& commands == commands_to_commit(state)
            &&& commands.len() < replies.len()
            &&& forall|i: int| 0 <= i <= commands.len() ==> #[trigger] replies[i] is Changed
        }),
    decreases replies.len(),
{
    match insert_step(state, replies[0]) {
        Step::Finish(_) => {},
        Step::Perform(next, command) => {
            let rest_replies = replies.drop_first();
            let rest = insert_trace(next, rest_replies);
            let commands = seq![command] + rest.0;
            lemma_insert_trace_stored(next, rest_replies);
            assert(insert_trace(state, replies) == (commands, rest.1));
            assert(commands =~= commands_to_commit(state)) by {
                match state.stage {
                    InsertStage::Primary => {
                        lemma_tag_commands(state.entry, 0);
                    },
                    InsertStage::Tag(sent) => {
                        lemma_tag_commands(state.entry, sent as int);
                    },
                    _ => {},
                }
            }
            assert forall|i: int| 0 <= i <= commands.len() implies #[trigger] replies[i]
                is Changed by {
                if i > 0 {
                    assert(replies[i] == rest_replies[i - 1]);
                }
            }
        },
    }
}

/// An insertion that answers with an error has undone its transaction, if
/// it was in one, and no commit ran.
#[verifier::spinoff_prover]
proof fn lemma_insert_trace_failed(state: InsertView, replies: Seq<SqlReplyView>)
    requires
        insert_trace(state, replies).1 matches Some(Err(_)),
    ensures
        ({
            let commands = insert_trace(state, replies).0;
            &&& no_commit_ran(commands, replies)
            &&& state.stage is Rollback ==> commands.len() == 0
            &&& (state.stage is Begin) && (replies[0] is Changed) ==> commands.len() > 0
                && commands.last() == SqlCommandView::Rollback
            &&& !(state.stage is Rollback) && !(state.stage is Begin) ==> commands.len() > 0
                && commands.last() == SqlCommandView::Rollback
        }),
    decreases replies.len(),
{
    match insert_step(state, replies[0]) {
        Step::Finish(_) => {},
        Step::Perform(next, command) => {
            let rest_replies = replies.drop_first();
            let rest = insert_trace(next, rest_replies);
            let commands = seq![command] + rest.0;
            lemma_insert_trace_failed(next, rest_replies);
            assert(insert_trace(state, replies) == (commands, rest.1));
            assert(commands.last() == SqlCommandView::Rollback) by {
                if rest.0.len() > 0 {
                    assert(commands.last() == rest.0.last());
                }
            }
            assert forall|i: int|
                0 <= i < commands.len() && i + 1 < replies.len() && #[trigger] commands[i]
                    == SqlCommandView::Commit implies !(replies[i + 1] is Changed) by {
                assert(rest_replies[i] == replies[i + 1]);
                if i > 0 {
                    assert(rest.0[i - 1] == commands[i]);
                } else {
                    assert(next.stage is Commit);
                }
            }
        },
    }
}

/// The commands for the tags from `from` on are the one for the tag at
/// `from`, then those for the tags after it.
proof fn lemma_tag_commands(entry: PokemonView, from: int)
    requires
        0 <= from <= entry.types.len(),
    ensures
        from < entry.types.len() ==> tag_commands(entry, from) == seq![
            SqlCommandView::InsertType { number: entry.number, name: entry.types[from] },
        ] + tag_commands(entry, from + 1),
        from == entry.types.len() ==> tag_commands(entry, from) == Seq::<SqlCommandView>::empty(),
{
    if from < entry.types.len() {
        assert(tag_commands(entry, from) =~= seq![
            SqlCommandView::InsertType { number: entry.number, name: entry.types[from] },
        ] + tag_commands(entry, from + 1));
    } else {
        assert(tag_commands(entry, from) =~= Seq::<SqlCommandView>::empty());
    }
}

/// An insertion writes all rows of an entry or none. Whatever the database
/// replies: where the insertion answers with an entry, it is the entry
/// given, every statement ran, and the statements were the row of the
/// entry, the rows of its tags in their order, and the commit. Where it
/// answers with an error after the transaction was opened, its last command
/// undoes the transaction, and no commit ran before. After as many replies
/// as `insert_moves_left` says, the answer has come.
pub proof fn lemma_insert_is_atomic(entry: PokemonView, replies: Seq<SqlReplyView>)
    requires
        entry_is_valid(entry),
    ensures
        ({
            let start = InsertView { entry, stage: InsertStage::Begin };
            let (commands, answer) = insert_trace(start, replies);
            &&& replies.len() >= entry.types.len() + 5 ==> answer is Some
            &&& answer matches Some(Ok(stored)) ==> {
                &&& stored == entry
                &&& commands == seq![
                    SqlCommandView::InsertPokemon { number: entry.number, name: entry.name },
                ] + tag_commands(entry, 0) + seq![SqlCommandView::Commit]
                &&& forall|i: int| 0 <= i <= commands.len() ==> #[trigger] replies[i] is Changed
            }
            &&& (answer matches Some(Err(_))) && (replies[0] is Changed) ==> {
                &&& commands.len() > 0
                &&& commands.last() == SqlCommandView::Rollback
                &&& no_commit_ran(commands, replies)
            }
        }),
{
    let start = InsertView { entry, stage: InsertStage::Begin };
    lemma_insert_trace_ends(start, replies);
    if insert_trace(start, replies).1 matches Some(Ok(_)) {
        lemma_insert_trace_stored(start, replies);
    }
    if insert_trace(start, replies).1 matches Some(Err(_)) {
        lemma_insert_trace_failed(start, replies);
    }
}

/// An insertion answers `Conflict` exactly where the transaction was
/// opened and the database reported the number as taken in reply to the row
/// of the entry; the answer comes with the reply to the undoing of the
/// transaction, whatever that reply is.
pub proof fn lemma_insert_conflicts_on_taken_number(entry: PokemonView, replies: Seq<SqlReplyView>)
    ensures
        ({
            let start = InsertView { entry, stage: InsertStage::Begin };
            insert_trace(start, replies).1 == Some(
                Err::<PokemonView, InsertError>(InsertError::Conflict),
            ) <==> replies.len() >= 3 && replies[0] is Changed && is_number_taken(replies[1])
        }),
{
    let start = InsertView { entry, stage: InsertStage::Begin };
    let conflict = Some(Err::<PokemonView, InsertError>(InsertError::Conflict));
    if replies.len() > 0 {
        if let Step::Perform(primary, _) = insert_step(start, replies[0]) {
            let after_begin = replies.drop_first();
            assert(insert_trace(start, replies).1 == insert_trace(primary, after_begin).1);
            if after_begin.len() > 0 {
                assert(after_begin[0] == replies[1]);
                if let Step::Perform(next, _) = insert_step(primary, after_begin[0]) {
                    let after_primary = after_begin.drop_first();
                    assert(insert_trace(primary, after_begin).1 == insert_trace(
                        next,
                        after_primary,
                    ).1);
                    if next.stage == InsertStage::Rollback(InsertError::Conflict) {
                        if after_primary.len() > 0 {
                            assert(insert_trace(next, after_primary).1 == conflict);
                        }
                    } else {
                        lemma_insert_never_conflicts(next, after_primary);
                    }
                }
            }
        }
    }
}

/// An insertion whose entry row was written, or that is being undone for
/// another reason than a taken number, does not answer `Conflict`.
proof fn lemma_insert_never_conflicts(state: InsertView, replies: Seq<SqlReplyView>)
    requires
        !(state.stage is Begin),
        !(state.stage is Primary),
        state.stage != InsertStage::Rollback(InsertError::Conflict),
    ensures
        insert_trace(state, replies).1 != Some(
            Err::<PokemonView, InsertError>(InsertError::Conflict),
        ),
    decreases replies.len(),
{
    if replies.len() > 0 {
        if let Step::Perform(next, _) = insert_step(state, replies[0]) {
            lemma_insert_never_conflicts(next, replies.drop_first());
        }
    }
}

/// What driving an insertion on a connection amounts to. Where the
/// insertion answers with an entry, the connection was asked to open a
/// transaction, to write the row of the entry and the rows of its tags in
/// their order, and to commit, each of these ran, and nothing else was
/// asked. Where it answers with an error after the transaction was opened,
/// the last thing asked was to undo the transaction, and no commit ran
/// before. Never is more asked than five commands and one for each tag.
pub proof fn lemma_driven_insert_is_atomic<C: Service<SqlCommand, SqlReply>>(
    connection: C,
    entry: PokemonView,
    exchanges: Seq<(SqlCommand, SqlReply)>,
    answer: Result<PokemonView, InsertError>,
)
    requires
        entry_is_valid(entry),
        driven::<SqlCommand, SqlReply, C, InsertRun>(
            connection,
            InsertView { entry, stage: InsertStage::Begin },
            SqlCommandView::Begin,
            exchanges,
            answer,
        ),
    ensures
        exchanges.len() <= entry.types.len() + 5,
        answer matches Ok(stored) ==> {
            &&& stored == entry
            &&& commands_of(exchanges) == seq![
                SqlCommandView::Begin,
                SqlCommandView::InsertPokemon { number: entry.number, name: entry.name },
            ] + tag_commands(entry, 0) + seq![SqlCommandView::Commit]
            &&& forall|i: int| 0 <= i < exchanges.len() ==> #[trigger] replies_of(exchanges)[i]
                is Changed
        },
        answer is Err && replies_of(exchanges)[0] is Changed ==> {
            &&& commands_of(exchanges).last() == SqlCommandView::Rollback
            &&& forall|i: int|
                0 <= i < exchanges.len() && #[trigger] commands_of(exchanges)[i]
                    == SqlCommandView::Commit ==> !(replies_of(exchanges)[i] is Changed)
        },
{
    let start = InsertView { entry, stage: InsertStage::Begin };
    let commands = commands_of(exchanges);
    let replies = replies_of(exchanges);
    lemma_insert_is_atomic(entry, replies);
    assert(commands =~= seq![commands[0]] + commands.drop_first());
    assert forall|i: int| 0 < i < commands.len() implies #[trigger] commands[i]
        == commands.drop_first()[i - 1] by {}
    if exchanges.len() > entry.types.len() + 5 {
        let most = (entry.types.len() + 5) as int;
        lemma_insert_is_atomic(entry, replies.take(most));
        lemma_trace_goes_on::<SqlCommand, SqlReply, InsertRun>(start, replies, most);
        lemma_trace_lengths::<SqlCommand, SqlReply, InsertRun>(start, replies.take(most));
    }
    if answer is Err && replies[0] is Changed {
        assert forall|i: int|
            0 <= i < exchanges.len() && #[trigger] commands[i]
                == SqlCommandView::Commit implies !(replies[i] is Changed) by {
            assert(commands.drop_first()[i - 1] == SqlCommandView::Commit);
        }
    }
}

/// A fetch of one entry under way, as plain values: the number asked for,
/// and the row that was found once it is known.
pub struct FetchOneView {
    pub number: u16,
    pub row: Option<(u16, Seq<char>)>,
}

/// A move of a fetch of one entry, as plain values.
pub type FetchOneStep = Step<FetchOneView, SqlCommandView, Result<PokemonView, FetchOneError>>;

/// The move of a fetch of one entry in `state` on `reply`.
///
/// The row of the entry is read first: no row answers `NotFound`. Then the
/// tags are read, and the entry is built from the first row and the tags if
/// all of its fields are valid. A reply of another kind than the one
/// awaited, and an invalid field, answer `Unknown`.
pub open spec fn fetch_one_step(state: FetchOneView, reply: SqlReplyView) -> FetchOneStep {
    match (state.row, reply) {
        (None, SqlReplyView::Pokemons(rows)) => if rows.len() == 0 {
            Step::Finish(Err(FetchOneError::NotFound))
        } else {
            Step::Perform(
                FetchOneView { number: state.number, row: Some(rows[0]) },
                SqlCommandView::SelectTypes { number: state.number },
            )
        },
        (Some(row), SqlReplyView::Types(tags)) => Step::Finish(
            restored(fields(row.0, row.1, tags), FetchOneError::Unknown),
        ),
        _ => Step::Finish(Err(FetchOneError::Unknown)),
    }
}

/// A fetch of one entry under way.
#[derive(Debug)]
pub struct FetchOneRun {
    number: u16,
    row: Option<(u16, String)>,
}

impl View for FetchOneRun {
    type V = FetchOneView;

    closed spec fn view(&self) -> FetchOneView {
        FetchOneView {
            number: self.number,
            row: match self.row {
                Some(row) => Some((row.0, row.1@)),
                None => None,
            },
        }
    }
}

impl FetchOneRun {
    /// Starts the fetch of the entry with that number: the first command
    /// reads its row.
    pub fn start(number: PokemonNumber) -> (run: (Self, SqlCommand))
        ensures
            run.0@ == (FetchOneView { number: number@, row: None }),
            run.1@ == (SqlCommandView::SelectPokemon { number: number@ }),
    {
        let number = number.value();
        (FetchOneRun { number, row: None }, SqlCommand::SelectPokemon { number })
    }
}

impl Protocol<SqlCommand, SqlReply> for FetchOneRun {
    type State = FetchOneView;

    type AnswerView = Result<PokemonView, FetchOneError>;

    open spec fn step(state: FetchOneView, reply: SqlReplyView) -> FetchOneStep {
        fetch_one_step(state, reply)
    }

    open spec fn rank(state: FetchOneView) -> (nat, nat) {
        (
            0,
            if state.row is None {
                1
            } else {
                0
            },
        )
    }

    proof fn lemma_rank_falls(state: FetchOneView, reply: SqlReplyView) {
    }
}

impl Run<SqlCommand, SqlReply> for FetchOneRun {
    type Answer = Result<Pokemon, FetchOneError>;

    open spec fn state(&self) -> FetchOneView {
        self@
    }

    open spec fn answer_view(answer: Result<Pokemon, FetchOneError>) -> Result<
        PokemonView,
        FetchOneError,
    > {
        result_view(answer)
    }

    /// Takes the reply to the command that was performed last and makes
    /// the next move.
    fn advance(self, reply: SqlReply) -> (step: Step<Self, SqlCommand, Result<Pokemon, FetchOneError>>)
        ensures
            match step {
                Step::Perform(next, command) => fetch_one_step(self@, reply@) == Step::<
                    FetchOneView,
                    SqlCommandView,
                    Result<PokemonView, FetchOneError>,
                >::Perform(next@, command@),
                Step::Finish(answer) => fetch_one_step(self@, reply@) == Step::<
                    FetchOneView,
                    SqlCommandView,
                    Result<PokemonView, FetchOneError>,
                >::Finish(result_view(answer)),
            },
    {
        let FetchOneRun { number, row } = self;
        match (row, reply) {
            (None, SqlReply::Pokemons(mut rows)) => {
                if rows.is_empty() {
                    Step::Finish(Err(FetchOneError::NotFound))
                } else {
                    let first = rows.remove(0);
                    Step::Perform(
                        FetchOneRun { number, row: Some(first) },
                        SqlCommand::SelectTypes { number },
                    )
                }
            },
            (Some(row), SqlReply::Types(tags)) => {
                match Pokemon::from_fields(row.0, row.1, tags) {
                    Ok(pokemon) => Step::Finish(Ok(pokemon)),
                    Err(_) => Step::Finish(Err(FetchOneError::Unknown)),
                }
            },
            _ => Step::Finish(Err(FetchOneError::Unknown)),
        }
    }
}

/// A listing under way, as plain values: the rows of the entries once they
/// are known, and the entries that were built so far, one for each of the
/// first rows.
pub struct FetchAllView {
    pub rows: Option<Seq<(u16, Seq<char>)>>,
    pub found: Seq<PokemonView>,
}

/// A move of a listing, as plain values.
pub type FetchAllStep = Step<FetchAllView, SqlCommandView, Result<Seq<PokemonView>, FetchAllError>>;

/// The move of a listing in `state` on `reply`.
///
/// The rows of all entries are read first. Then the tags of each are read
/// in turn, by the number in its row, and the entry is built from the row
/// and the tags. The listing answers with all entries in the order of the
/// rows. A reply of another kind than the one awaited, and an invalid
/// field, answer `Unknown`.
pub open spec fn fetch_all_step(state: FetchAllView, reply: SqlReplyView) -> FetchAllStep {
    match (state.rows, reply) {
        (None, SqlReplyView::Pokemons(rows)) => fetch_all_next(rows, Seq::empty()),
        (Some(rows), SqlReplyView::Types(tags)) => if state.found.len() < rows.len() {
            let row = rows[state.found.len() as int];
            let entry = fields(row.0, row.1, tags);
            if entry_is_valid(entry) {
                fetch_all_next(rows, state.found.push(entry))
            } else {
                Step::Finish(Err(FetchAllError::Unknown))
            }
        } else {
            Step::Finish(Err(FetchAllError::Unknown))
        },
        _ => Step::Finish(Err(FetchAllError::Unknown)),
    }
}

/// The move of a listing of `rows` once the entries `found` are built: the
/// tags of the next row are read, or the listing ends where no row is left.
pub open spec fn fetch_all_next(rows: Seq<(u16, Seq<char>)>, found: Seq<PokemonView>) -> FetchAllStep {
    if found.len() < rows.len() {
        Step::Perform(
            FetchAllView { rows: Some(rows), found },
            SqlCommandView::SelectTypes { number: rows[found.len() as int].0 },
        )
    } else {
        Step::Finish(Ok(found))
    }
}

/// The entries or an error, the entries as plain values.
pub open spec fn listing_view(result: Result<Vec<Pokemon>, FetchAllError>) -> Result<
    Seq<PokemonView>,
    FetchAllError,
> {
    match result {
        Ok(pokemons) => Ok(views(pokemons@)),
        Err(error) => Err(error),
    }
}

/// A listing under way.
#[derive(Debug)]
pub struct FetchAllRun {
    rows: Option<Vec<(u16, String)>>,
    found: Vec<Pokemon>,
}

impl View for FetchAllRun {
    type V = FetchAllView;

    closed spec fn view(&self) -> FetchAllView {
        FetchAllView {
            rows: match self.rows {
                Some(rows) => Some(row_views(rows@)),
                None => None,
            },
            found: views(self.found@),
        }
    }
}

impl FetchAllRun {
    /// Starts a listing: the first command reads the rows of all entries.
    pub fn start() -> (run: (Self, SqlCommand))
        ensures
            run.0@ == (FetchAllView { rows: None, found: Seq::empty() }),
            run.1@ == SqlCommandView::SelectPokemons,
    {
        let run = FetchAllRun { rows: None, found: Vec::new() };
        assert(views(run.found@) =~= Seq::empty());
        (run, SqlCommand::SelectPokemons)
    }

    /// The move once the entries `found` are built.
    fn next(rows: Vec<(u16, String)>, found: Vec<Pokemon>) -> (step: Step<
        FetchAllRun,
        SqlCommand,
        Result<Vec<Pokemon>, FetchAllError>,
    >)
        ensures
            match step {
                Step::Perform(next, command) => fetch_all_next(row_views(rows@), views(found@))
                    == Step::<
                    FetchAllView,
                    SqlCommandView,
                    Result<Seq<PokemonView>, FetchAllError>,
                >::Perform(next@, command@),
                Step::Finish(answer) => fetch_all_next(row_views(rows@), views(found@)) == Step::<
                    FetchAllView,
                    SqlCommandView,
                    Result<Seq<PokemonView>, FetchAllError>,
                >::Finish(listing_view(answer)),
            },
    {
        if found.len() < rows.len() {
            let number = rows[found.len()].0;
            Step::Perform(
                FetchAllRun { rows: Some(rows), found },
                SqlCommand::SelectTypes { number },
            )
        } else {
            Step::Finish(Ok(found))
        }
    }
}

impl Protocol<SqlCommand, SqlReply> for FetchAllRun {
    type State = FetchAllView;

    type AnswerView = Result<Seq<PokemonView>, FetchAllError>;

    open spec fn step(state: FetchAllView, reply: SqlReplyView) -> FetchAllStep {
        fetch_all_step(state, reply)
    }

    open spec fn rank(state: FetchAllView) -> (nat, nat) {
        match state.rows {
            None => (1, 0),
            Some(rows) => (
                0,
                if state.found.len() <= rows.len() {
                    (rows.len() - state.found.len()) as nat
                } else {
                    0
                },
            ),
        }
    }

    proof fn lemma_rank_falls(state: FetchAllView, reply: SqlReplyView) {
    }
}

impl Run<SqlCommand, SqlReply> for FetchAllRun {
    type Answer = Result<Vec<Pokemon>, FetchAllError>;

    open spec fn state(&self) -> FetchAllView {
        self@
    }

    open spec fn answer_view(answer: Result<Vec<Pokemon>, FetchAllError>) -> Result<
        Seq<PokemonView>,
        FetchAllError,
    > {
        listing_view(answer)
    }

    /// Takes the reply to the command that was performed last and makes
    /// the next move.
    fn advance(self, reply: SqlReply) -> (step: Step<
        Self,
        SqlCommand,
        Result<Vec<Pokemon>, FetchAllError>,
    >)
        ensures
            match step {
                Step::Perform(next, command) => fetch_all_step(self@, reply@) == Step::<
                    FetchAllView,
                    SqlCommandView,
                    Result<Seq<PokemonView>, FetchAllError>,
                >::Perform(next@, command@),
                Step::Finish(answer) => fetch_all_step(self@, reply@) == Step::<
                    FetchAllView,
                    SqlCommandView,
                    Result<Seq<PokemonView>, FetchAllError>,
                >::Finish(listing_view(answer)),
            },
    {
        let FetchAllRun { rows, found } = self;
        match (rows, reply) {
            (None, SqlReply::Pokemons(rows)) => {
                let found: Vec<Pokemon> = Vec::new();
                assert(views(found@) =~= Seq::empty());
                Self::next(rows, found)
            },
            (Some(rows), SqlReply::Types(tags)) => {
                let at = found.len();
                if at < rows.len() {
                    let number = rows[at].0;
                    let name = rows[at].1.clone();
                    match Pokemon::from_fields(number, name, tags) {
                        Ok(pokemon) => {
                            let mut found = found;
                            let ghost before = views(found@);
                            found.push(pokemon);
                            assert(views(found@) =~= before.push(pokemon@));
                            Self::next(rows, found)
                        },
                        Err(_) => Step::Finish(Err(FetchAllError::Unknown)),
                    }
                } else {
                    Step::Finish(Err(FetchAllError::Unknown))
                }
            },
            _ => Step::Finish(Err(FetchAllError::Unknown)),
        }
    }
}

/// The commands that a listing in `state` has performed by the time it has
/// taken `replies`, and its answer if that has come.
pub open spec fn fetch_all_trace(state: FetchAllView, replies: Seq<SqlReplyView>) -> (
    Seq<SqlCommandView>,
    Option<Result<Seq<PokemonView>, FetchAllError>>,
) {
    trace::<SqlCommand, SqlReply, FetchAllRun>(state, replies)
}

/// The entries of `rows`, each with the tags of the same place in `tags`.
pub open spec fn entries_of_rows(rows: Seq<(u16, Seq<char>)>, tags: Seq<Seq<Seq<char>>>) -> Seq<
    PokemonView,
> {
    Seq::new(rows.len(), |i: int| fields(rows[i].0, rows[i].1, tags[i]))
}

/// The replies that hold these tags, one reply for each entry.
pub open spec fn tag_replies(tags: Seq<Seq<Seq<char>>>) -> Seq<SqlReplyView> {
    Seq::new(tags.len(), |i: int| SqlReplyView::Types(tags[i]))
}

/// The commands that read the tags of the first `count` of `rows`, each by
/// the number in its row.
pub open spec fn tag_queries(rows: Seq<(u16, Seq<char>)>, count: int) -> Seq<SqlCommandView> {
    Seq::new(
        if 0 <= count <= rows.len() {
            count as nat
        } else {
            0
        },
        |i: int| SqlCommandView::SelectTypes { number: rows[i].0 },
    )
}

/// What holds of a listing that has built the first entries and is given
/// the tags of the others.
#[verifier::spinoff_prover]
proof fn lemma_fetch_all_trace(
    rows: Seq<(u16, Seq<char>)>,
    tags: Seq<Seq<Seq<char>>>,
    built: int,
)
    requires
        rows.len() == tags.len(),
        0 <= built < rows.len(),
    ensures
        ({
            let all = entries_of_rows(rows, tags);
            let state = FetchAllView { rows: Some(rows), found: all.take(built) };
            let replies = tag_replies(tags).skip(built);
            let (commands, answer) = fetch_all_trace(state, replies);
            let good = forall|i: int|
                built <= i < rows.len() ==> entry_is_valid(#[trigger] all[i]);
            &&& answer == Some(
                if good {
                    Ok::<Seq<PokemonView>, FetchAllError>(all)
                } else {
                    Err::<Seq<PokemonView>, FetchAllError>(FetchAllError::Unknown)
                },
            )
            &&& good ==> commands == tag_queries(rows, rows.len() as int).skip(built + 1)
            &&& forall|i: int|
                0 <= i < commands.len() ==> #[trigger] commands[i] == (SqlCommandView::SelectTypes {
                    number: rows[built + 1 + i].0,
                }) && built + 1 + i < rows.len()
        }),
    decreases rows.len() - built,
{
    let all = entries_of_rows(rows, tags);
    let state = FetchAllView { rows: Some(rows), found: all.take(built) };
    let replies = tag_replies(tags).skip(built);
    assert(replies[0] == SqlReplyView::Types(tags[built]));
    let entry = fields(rows[built].0, rows[built].1, tags[built]);
    assert(entry == all[built]);
    if entry_is_valid(entry) {
        assert(all.take(built).push(entry) =~= all.take(built + 1));
        if built + 1 < rows.len() {
            lemma_fetch_all_trace(rows, tags, built + 1);
            assert(replies.drop_first() =~= tag_replies(tags).skip(built + 1));
            let next = FetchAllView { rows: Some(rows), found: all.take(built + 1) };
            let rest = fetch_all_trace(next, replies.drop_first());
            let command = SqlCommandView::SelectTypes { number: rows[built + 1].0 };
            assert(fetch_all_trace(state, replies) == (seq![command] + rest.0, rest.1));
            if forall|i: int| built <= i < rows.len() ==> entry_is_valid(#[trigger] all[i]) {
                assert(seq![command] + rest.0 =~= tag_queries(rows, rows.len() as int).skip(
                    built + 1,
                ));
            }
        } else {
            assert(all.take(built + 1) =~= all);
            assert(tag_queries(rows, rows.len() as int).skip(built + 1) =~= Seq::<
                SqlCommandView,
            >::empty());
        }
    }
}

/// A listing answers the entries of the rows that the database gave, in
/// their order, each with the tags that the database gave for it: where the
/// fields of all of them are valid, and `Unknown` where one is not. The
/// tags of each entry are read by the number in its row, in the order of
/// the rows, and the listing has answered after one reply more than there
/// are rows.
pub proof fn lemma_fetch_all_lists_rows(rows: Seq<(u16, Seq<char>)>, tags: Seq<Seq<Seq<char>>>)
    requires
        rows.len() == tags.len(),
    ensures
        ({
            let all = entries_of_rows(rows, tags);
            let start = FetchAllView { rows: None, found: Seq::empty() };
            let replies = seq![SqlReplyView::Pokemons(rows)] + tag_replies(tags);
            let (commands, answer) = fetch_all_trace(start, replies);
            let good = forall|i: int| 0 <= i < rows.len() ==> entry_is_valid(#[trigger] all[i]);
            &&& answer == Some(
                if good {
                    Ok::<Seq<PokemonView>, FetchAllError>(all)
                } else {
                    Err::<Seq<PokemonView>, FetchAllError>(FetchAllError::Unknown)
                },
            )
            &&& good ==> commands == tag_queries(rows, rows.len() as int)
            &&& forall|i: int|
                0 <= i < commands.len() ==> #[trigger] commands[i] == (SqlCommandView::SelectTypes {
                    number: rows[i].0,
                }) && i < rows.len()
        }),
{
    let all = entries_of_rows(rows, tags);
    let start = FetchAllView { rows: None, found: Seq::empty() };
    let replies = seq![SqlReplyView::Pokemons(rows)] + tag_replies(tags);
    assert(replies[0] == SqlReplyView::Pokemons(rows));
    assert(replies.drop_first() =~= tag_replies(tags));
    if rows.len() == 0 {
        assert(all =~= Seq::<PokemonView>::empty());
        assert(tag_queries(rows, 0) =~= Seq::<SqlCommandView>::empty());
    } else {
        assert(all.take(0) =~= Seq::<PokemonView>::empty());
        assert(tag_replies(tags).skip(0) =~= tag_replies(tags));
        lemma_fetch_all_trace(rows, tags, 0);
        let next = FetchAllView { rows: Some(rows), found: Seq::empty() };
        let rest = fetch_all_trace(next, tag_replies(tags));
        let command = SqlCommandView::SelectTypes { number: rows[0].0 };
        assert(fetch_all_trace(start, replies) == (seq![command] + rest.0, rest.1));
        if forall|i: int| 0 <= i < rows.len() ==> entry_is_valid(#[trigger] all[i]) {
            assert(seq![command] + rest.0 =~= tag_queries(rows, rows.len() as int));
        }
    }
}

/// How far a deletion has come.
#[derive(Clone, Copy, Debug, PartialEq, Eq, Structural)]
pub enum DeleteStage {
    /// The transaction is being opened.
    Begin,
    /// The tag rows of the entry are being removed.
    Types,
    /// The row of the entry is being removed.
    Primary,
    /// The transaction is being made permanent.
    Commit,
    /// The transaction is being undone, for this reason.
    Rollback(DeleteError),
}

/// A deletion under way, as plain values.
pub struct DeleteView {
    pub number: u16,
    pub stage: DeleteStage,
}

/// A move of a deletion, as plain values.
pub type DeleteStep = Step<DeleteView, SqlCommandView, Result<(), DeleteError>>;

/// The move of a deletion in `state` on `reply`.
///
/// Inside one transaction the tag rows of the entry are removed, then its
/// own row. Where that removes no row, the transaction is undone and the
/// deletion answers `NotFound`. The first reply that is not `Changed` ends
/// the deletion with `Unknown`, after the transaction was undone if it was
/// opened.
pub open spec fn delete_step(state: DeleteView, reply: SqlReplyView) -> DeleteStep {
    let number = state.number;
    let undo = |error: DeleteError|
        Step::Perform(
            DeleteView { number, stage: DeleteStage::Rollback(error) },
            SqlCommandView::Rollback,
        );
    match state.stage {
        DeleteStage::Begin => if reply is Changed {
            Step::Perform(
                DeleteView { number, stage: DeleteStage::Types },
                SqlCommandView::DeleteTypes { number },
            )
        } else {
            Step::Finish(Err(DeleteError::Unknown))
        },
        DeleteStage::Types => if reply is Changed {
            Step::Perform(
                DeleteView { number, stage: DeleteStage::Primary },
                SqlCommandView::DeletePokemon { number },
            )
        } else {
            undo(DeleteError::Unknown)
        },
        DeleteStage::Primary => match reply {
            SqlReplyView::Changed(rows) => if rows == 0 {
                undo(DeleteError::NotFound)
            } else {
                Step::Perform(
                    DeleteView { number, stage: DeleteStage::Commit },
                    SqlCommandView::Commit,
                )
            },
            _ => undo(DeleteError::Unknown),
        },
        DeleteStage::Commit => if reply is Changed {
            Step::Finish(Ok(()))
        } else {
            undo(DeleteError::Unknown)
        },
        DeleteStage::Rollback(error) => Step::Finish(Err(error)),
    }
}

/// A bound on the moves that a deletion in `state` still makes.
pub open spec fn delete_moves_left(state: DeleteView) -> nat {
    match state.stage {
        DeleteStage::Begin => 5,
        DeleteStage::Types => 4,
        DeleteStage::Primary => 3,
        DeleteStage::Commit => 2,
        DeleteStage::Rollback(_) => 1,
    }
}

/// A deletion under way.
#[derive(Debug)]
pub struct DeleteRun {
    number: u16,
    stage: DeleteStage,
}

impl View for DeleteRun {
    type V = DeleteView;

    closed spec fn view(&self) -> DeleteView {
        DeleteView { number: self.number, stage: self.stage }
    }
}

impl DeleteRun {
    /// Starts the deletion of the entry with that number: the first
    /// command opens the transaction.
    pub fn start(number: PokemonNumber) -> (run: (Self, SqlCommand))
        ensures
            run.0@ == (DeleteView { number: number@, stage: DeleteStage::Begin }),
            run.1@ == SqlCommandView::Begin,
    {
        (DeleteRun { number: number.value(), stage: DeleteStage::Begin }, SqlCommand::Begin)
    }

    /// The move that undoes the transaction for `error`.
    fn undo(number: u16, error: DeleteError) -> (step: Step<
        DeleteRun,
        SqlCommand,
        Result<(), DeleteError>,
    >)
        ensures
            step matches Step::Perform(next, command) && next@ == (DeleteView {
                number,
                stage: DeleteStage::Rollback(error),
            }) && command@ == SqlCommandView::Rollback,
    {
        Step::Perform(DeleteRun { number, stage: DeleteStage::Rollback(error) }, SqlCommand::Rollback)
    }
}

impl Protocol<SqlCommand, SqlReply> for DeleteRun {
    type State = DeleteView;

    type AnswerView = Result<(), DeleteError>;

    open spec fn step(state: DeleteView, reply: SqlReplyView) -> DeleteStep {
        delete_step(state, reply)
    }

    open spec fn rank(state: DeleteView) -> (nat, nat) {
        (0, delete_moves_left(state))
    }

    proof fn lemma_rank_falls(state: DeleteView, reply: SqlReplyView) {
    }
}

impl Run<SqlCommand, SqlReply> for DeleteRun {
    type Answer = Result<(), DeleteError>;

    open spec fn state(&self) -> DeleteView {
        self@
    }

    open spec fn answer_view(answer: Result<(), DeleteError>) -> Result<(), DeleteError> {
        answer
    }

    /// Takes the reply to the command that was performed last and makes
    /// the next move.
    fn advance(self, reply: SqlReply) -> (step: Step<Self, SqlCommand, Result<(), DeleteError>>)
        ensures
            match step {
                Step::Perform(next, command) => delete_step(self@, reply@) == Step::<
                    DeleteView,
                    SqlCommandView,
                    Result<(), DeleteError>,
                >::Perform(next@, command@),
                Step::Finish(answer) => delete_step(self@, reply@) == Step::<
                    DeleteView,
                    SqlCommandView,
                    Result<(), DeleteError>,
                >::Finish(answer),
            },
    {
        let number = self.number;
        let ran = reply.is_changed();
        match self.stage {
            DeleteStage::Begin => if ran {
                Step::Perform(
                    DeleteRun { number, stage: DeleteStage::Types },
                    SqlCommand::DeleteTypes { number },
                )
            } else {
                Step::Finish(Err(DeleteError::Unknown))
            },
            DeleteStage::Types => if ran {
                Step::Perform(
                    DeleteRun { number, stage: DeleteStage::Primary },
                    SqlCommand::DeletePokemon { number },
                )
            } else {
                Self::undo(number, DeleteError::Unknown)
            },
            DeleteStage::Primary => match reply {
                SqlReply::Changed(rows) => if rows == 0 {
                    Self::undo(number, DeleteError::NotFound)
                } else {
                    Step::Perform(
                        DeleteRun { number, stage: DeleteStage::Commit },
                        SqlCommand::Commit,
                    )
                },
                _ => Self::undo(number, DeleteError::Unknown),
            },
            DeleteStage::Commit => if ran {
                Step::Finish(Ok(()))
            } else {
                Self::undo(number, DeleteError::Unknown)
            },
            DeleteStage::Rollback(error) => Step::Finish(Err(error)),
        }
    }
}

/// The commands that a deletion in `state` has performed by the time it has
/// taken `replies`, and its answer if that has come.
pub open spec fn delete_trace(state: DeleteView, replies: Seq<SqlReplyView>) -> (
    Seq<SqlCommandView>,
    Option<Result<(), DeleteError>>,
) {
    trace::<SqlCommand, SqlReply, DeleteRun>(state, replies)
}

/// The commands that a deletion in `state` performs when every statement
/// runs and the row of the entry is there.
pub open spec fn commands_to_removal(state: DeleteView) -> Seq<SqlCommandView> {
    let number = state.number;
    match state.stage {
        DeleteStage::Begin => seq![
            SqlCommandView::DeleteTypes { number },
            SqlCommandView::DeletePokemon { number },
            SqlCommandView::Commit,
        ],
        DeleteStage::Types => seq![
            SqlCommandView::DeletePokemon { number },
            SqlCommandView::Commit,
        ],
        DeleteStage::Primary => seq![SqlCommandView::Commit],
        DeleteStage::Commit => Seq::empty(),
        DeleteStage::Rollback(_) => Seq::empty(),
    }
}

/// How many replies a deletion at that stage takes before the one to the
/// removal of the row of the entry.
spec fn replies_before_removal(stage: DeleteStage) -> int {
    match stage {
        DeleteStage::Begin => 2,
        DeleteStage::Types => 1,
        _ => 0,
    }
}

/// A deletion has answered once it has taken as many replies as it has
/// moves left.
proof fn lemma_delete_trace_ends(state: DeleteView, replies: Seq<SqlReplyView>)
    ensures
        replies.len() >= delete_moves_left(state) ==> delete_trace(state, replies).1 is Some,
    decreases replies.len(),
{
    if replies.len() > 0 {
        match delete_step(state, replies[0]) {
            Step::Finish(_) => {},
            Step::Perform(next, _) => {
                lemma_delete_trace_ends(next, replies.drop_first());
            },
        }
    }
}

/// A deletion that answers that the entry is gone has performed the
/// commands up to the commit, and every one of them ran.
#[verifier::spinoff_prover]
proof fn lemma_delete_trace_removed(state: DeleteView, replies: Seq<SqlReplyView>)
    requires
        delete_trace(state, replies).1 matches Some(Ok(_)),
    ensures
        ({
            let commands = delete_trace(state, replies).0;
            &&& commands == commands_to_removal(state)
            &&& commands.len() < replies.len()
            &&& forall|i: int| 0 <= i <= commands.len() ==> #[trigger] replies[i] is Changed
        }),
    decreases replies.len(),
{
    match delete_step(state, replies[0]) {
        Step::Finish(_) => {},
        Step::Perform(next, command) => {
            let rest_replies = replies.drop_first();
            let rest = delete_trace(next, rest_replies);
            let commands = seq![command] + rest.0;
            lemma_delete_trace_removed(next, rest_replies);
            assert(delete_trace(state, replies) == (commands, rest.1));
            assert(commands =~= commands_to_removal(state));
            assert forall|i: int| 0 <= i <= commands.len() implies #[trigger] replies[i]
                is Changed by {
                if i > 0 {
                    assert(replies[i] == rest_replies[i - 1]);
                }
            }
        },
    }
}

/// A deletion that answers with an error has undone its transaction, if it
/// was in one, and no commit ran.
#[verifier::spinoff_prover]
proof fn lemma_delete_trace_failed(state: DeleteView, replies: Seq<SqlReplyView>)
    requires
        delete_trace(state, replies).1 matches Some(Err(_)),
    ensures
        ({
            let commands = delete_trace(state, replies).0;
            &&& no_commit_ran(commands, replies)
            &&& state.stage is Rollback ==> commands.len() == 0
            &&& (state.stage is Begin) && (replies[0] is Changed) ==> commands.len() > 0
                && commands.last() == SqlCommandView::Rollback
            &&& !(state.stage is Rollback) && !(state.stage is Begin) ==> commands.len() > 0
                && commands.last() == SqlCommandView::Rollback
        }),
    decreases replies.len(),
{
    match delete_step(state, replies[0]) {
        Step::Finish(_) => {},
        Step::Perform(next, command) => {
            let rest_replies = replies.drop_first();
            let rest = delete_trace(next, rest_replies);
            let commands = seq![command] + rest.0;
            lemma_delete_trace_failed(next, rest_replies);
            assert(delete_trace(state, replies) == (commands, rest.1));
            assert(commands.last() == SqlCommandView::Rollback) by {
                if rest.0.len() > 0 {
                    assert(commands.last() == rest.0.last());
                }
            }
            assert forall|i: int|
                0 <= i < commands.len() && i + 1 < replies.len() && #[trigger] commands[i]
                    == SqlCommandView::Commit implies !(replies[i + 1] is Changed) by {
                assert(rest_replies[i] == replies[i + 1]);
                if i > 0 {
                    assert(rest.0[i - 1] == commands[i]);
                } else {
                    assert(next.stage is Commit);
                }
            }
        },
    }
}

/// A deletion answers `NotFound` only where every statement up to the
/// removal of the row of the entry ran, and that removal changed no row.
#[verifier::spinoff_prover]
proof fn lemma_delete_trace_missing(state: DeleteView, replies: Seq<SqlReplyView>)
    requires
        delete_trace(state, replies).1 == Some(Err::<(), DeleteError>(DeleteError::NotFound)),
        !(state.stage is Rollback),
    ensures
        ({
            let asked = replies_before_removal(state.stage);
            &&& !(state.stage is Commit)
            &&& asked < replies.len()
            &&& replies[asked] == SqlReplyView::Changed(0)
            &&& forall|i: int| 0 <= i < asked ==> #[trigger] replies[i] is Changed
        }),
    decreases replies.len(),
{
    match delete_step(state, replies[0]) {
        Step::Finish(_) => {},
        Step::Perform(next, _) => {
            let rest_replies = replies.drop_first();
            if next.stage is Rollback {
                assert(replies.len() >= 2) by {
                    if rest_replies.len() == 0 {
                        assert(delete_trace(next, rest_replies).1 is None);
                    }
                }
            } else {
                lemma_delete_trace_missing(next, rest_replies);
                let asked = replies_before_removal(next.stage);
                assert(rest_replies[asked] == replies[asked + 1]);
                assert forall|i: int| 0 <= i < asked + 1 implies #[trigger] replies[i]
                    is Changed by {
                    if i > 0 {
                        assert(replies[i] == rest_replies[i - 1]);
                    }
                }
            }
        },
    }
}

/// A deletion removes the rows of an entry together or not at all.
/// Whatever the database replies: where the deletion answers that the
/// entry is gone, every statement ran, and the statements were the removal
/// of its tag rows, the removal of its own row, and the commit. Where it
/// answers with an error after the transaction was opened, its last
/// command undoes the transaction, and no commit ran before. It answers
/// `NotFound` only where every statement ran and the removal of the row of
/// the entry changed no row. After five replies the answer has come.
pub proof fn lemma_delete_is_atomic(number: u16, replies: Seq<SqlReplyView>)
    ensures
        ({
            let start = DeleteView { number, stage: DeleteStage::Begin };
            let (commands, answer) = delete_trace(start, replies);
            &&& replies.len() >= 5 ==> answer is Some
            &&& answer matches Some(Ok(_)) ==> {
                &&& commands == seq![
                    SqlCommandView::DeleteTypes { number },
                    SqlCommandView::DeletePokemon { number },
                    SqlCommandView::Commit,
                ]
                &&& forall|i: int| 0 <= i <= 3 ==> #[trigger] replies[i] is Changed
            }
            &&& (answer matches Some(Err(_))) && (replies[0] is Changed) ==> {
                &&& commands.len() > 0
                &&& commands.last() == SqlCommandView::Rollback
                &&& no_commit_ran(commands, replies)
            }
            &&& answer == Some(Err::<(), DeleteError>(DeleteError::NotFound)) ==> {
                &&& replies[0] is Changed
                &&& replies[1] is Changed
                &&& replies[2] == SqlReplyView::Changed(0)
            }
        }),
{
    let start = DeleteView { number, stage: DeleteStage::Begin };
    lemma_delete_trace_ends(start, replies);
    if delete_trace(start, replies).1 matches Some(Ok(_)) {
        lemma_delete_trace_removed(start, replies);
    }
    if delete_trace(start, replies).1 matches Some(Err(_)) {
        lemma_delete_trace_failed(start, replies);
    }
    if delete_trace(start, replies).1 == Some(Err::<(), DeleteError>(DeleteError::NotFound)) {
        lemma_delete_trace_missing(start, replies);
    }
}

/// What driving a deletion on a connection amounts to. Where the deletion
/// answers that the entry is gone, the connection was asked to open a
/// transaction, to remove the tag rows of the entry and then its own row,
/// and to commit, each of these ran, and nothing else was asked. Where it
/// answers with an error after the transaction was opened, the last thing
/// asked was to undo the transaction, and no commit ran before. Never is
/// more asked than five commands.
pub proof fn lemma_driven_delete_is_atomic<C: Service<SqlCommand, SqlReply>>(
    connection: C,
    number: u16,
    exchanges: Seq<(SqlCommand, SqlReply)>,
    answer: Result<(), DeleteError>,
)
    requires
        driven::<SqlCommand, SqlReply, C, DeleteRun>(
            connection,
            DeleteView { number, stage: DeleteStage::Begin },
            SqlCommandView::Begin,
            exchanges,
            answer,
        ),
    ensures
        exchanges.len() <= 5,
        answer is Ok ==> {
            &&& commands_of(exchanges) == seq![
                SqlCommandView::Begin,
                SqlCommandView::DeleteTypes { number },
                SqlCommandView::DeletePokemon { number },
                SqlCommandView::Commit,
            ]
            &&& forall|i: int| 0 <= i < exchanges.len() ==> #[trigger] replies_of(exchanges)[i]
                is Changed
        },
        answer is Err && replies_of(exchanges)[0] is Changed ==> {
            &&& commands_of(exchanges).last() == SqlCommandView::Rollback
            &&& forall|i: int|
                0 <= i < exchanges.len() && #[trigger] commands_of(exchanges)[i]
                    == SqlCommandView::Commit ==> !(replies_of(exchanges)[i] is Changed)
        },
{
    let start = DeleteView { number, stage: DeleteStage::Begin };
    let commands = commands_of(exchanges);
    let replies = replies_of(exchanges);
    lemma_delete_is_atomic(number, replies);
    assert(commands =~= seq![commands[0]] + commands.drop_first());
    assert forall|i: int| 0 < i < commands.len() implies #[trigger] commands[i]
        == commands.drop_first()[i - 1] by {}
    if exchanges.len() > 5 {
        lemma_delete_is_atomic(number, replies.take(5));
        lemma_trace_goes_on::<SqlCommand, SqlReply, DeleteRun>(start, replies, 5);
        lemma_trace_lengths::<SqlCommand, SqlReply, DeleteRun>(start, replies.take(5));
    }
    if answer is Ok {
        assert(commands =~= seq![
            SqlCommandView::Begin,
            SqlCommandView::DeleteTypes { number },
            SqlCommandView::DeletePokemon { number },
            SqlCommandView::Commit,
        ]);
    }
    if answer is Err && replies[0] is Changed {
        assert forall|i: int|
            0 <= i < exchanges.len() && #[trigger] commands[i]
                == SqlCommandView::Commit implies !(replies[i] is Changed) by {
            assert(commands.drop_first()[i - 1] == SqlCommandView::Commit);
        }
    }
}

/// The relational backend on one connection. Each operation is a run of
/// this module, driven on the connection.
#[derive(Debug)]
pub struct SqliteRepository<C: Service<SqlCommand, SqlReply>> {
    connection: C,
}

impl<C: Service<SqlCommand, SqlReply>> SqliteRepository<C> {
    /// The connection that the repository works on.
    pub closed spec fn connection(&self) -> C {
        self.connection
    }

    /// The repository on a connection that was just opened, once the
    /// connection is ready: a `ConnectRun` is driven on it, and the
    /// repository is there when the run answers that the connection is
    /// ready.
    pub fn try_new(connection: C) -> (res: Result<Self, ()>)
        ensures
            res matches Ok(repo) ==> repo.connection() == connection,
            exists|exchanges: Seq<(SqlCommand, SqlReply)>, answer: Result<(), ()>|
                {
                    &&& #[trigger] driven::<SqlCommand, SqlReply, C, ConnectRun>(
                        connection,
                        (),
                        SqlCommandView::EnableForeignKeys,
                        exchanges,
                        answer,
                    )
                    &&& res is Ok <==> answer is Ok
                },
    {
        let (run, command) = ConnectRun::start();
        match drive(&connection, run, command) {
            Ok(()) => Ok(SqliteRepository { connection }),
            Err(()) => Err(()),
        }
    }
}

impl<C: Service<SqlCommand, SqlReply>> Repository for SqliteRepository<C> {
    /// Drives an `InsertRun` on the connection and answers what the run
    /// answers.
    fn insert(&mut self, number: PokemonNumber, name: PokemonName, types: PokemonTypes) -> (res:
        Result<Pokemon, InsertError>)
        ensures
            final(self).connection() == old(self).connection(),
            exists|exchanges: Seq<(SqlCommand, SqlReply)>| #[trigger]
                driven::<SqlCommand, SqlReply, C, InsertRun>(
                    old(self).connection(),
                    InsertView { entry: fields(number@, name@, types@), stage: InsertStage::Begin },
                    SqlCommandView::Begin,
                    exchanges,
                    result_view(res),
                ),
    {
        let (run, command) = InsertRun::start(number, name, types);
        let res = drive(&self.connection, run, command);
        assert(old(self).connection() == self.connection);
        res
    }

    /// Drives a `FetchAllRun` on the connection and answers what the run
    /// answers.
    fn fetch_all(&self) -> (res: Result<Vec<Pokemon>, FetchAllError>)
        ensures
            exists|exchanges: Seq<(SqlCommand, SqlReply)>| #[trigger]
                driven::<SqlCommand, SqlReply, C, FetchAllRun>(
                    self.connection(),
                    FetchAllView { rows: None, found: Seq::empty() },
                    SqlCommandView::SelectPokemons,
                    exchanges,
                    listing_view(res),
                ),
    {
        let (run, command) = FetchAllRun::start();
        let res = drive(&self.connection, run, command);
        assert(self.connection() == self.connection);
        res
    }

    /// Drives a `FetchOneRun` on the connection and answers what the run
    /// answers.
    fn fetch_one(&self, number: PokemonNumber) -> (res: Result<Pokemon, FetchOneError>)
        ensures
            exists|exchanges: Seq<(SqlCommand, SqlReply)>| #[trigger]
                driven::<SqlCommand, SqlReply, C, FetchOneRun>(
                    self.connection(),
                    FetchOneView { number: number@, row: None },
                    SqlCommandView::SelectPokemon { number: number@ },
                    exchanges,
                    result_view(res),
                ),
    {
        let (run, command) = FetchOneRun::start(number);
        let res = drive(&self.connection, run, command);
        assert(self.connection() == self.connection);
        res
    }

    /// Drives a `DeleteRun` on the connection and answers what the run
    /// answers.
    fn delete(&mut self, number: PokemonNumber) -> (res: Result<(), DeleteError>)
        ensures
            final(self).connection() == old(self).connection(),
            exists|exchanges: Seq<(SqlCommand, SqlReply)>| #[trigger]
                driven::<SqlCommand, SqlReply, C, DeleteRun>(
                    old(self).connection(),
                    DeleteView { number: number@, stage: DeleteStage::Begin },
                    SqlCommandView::Begin,
                    exchanges,
                    res,
                ),
    {
        let (run, command) = DeleteRun::start(number);
        let res = drive(&self.connection, run, command);
        assert(old(self).connection() == self.connection);
        res
    }
}

} // verus!
