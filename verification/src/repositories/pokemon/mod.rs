//! Storage of the catalog: the four operations of a backend, what they
//! mean, and the backends.
//!
//! The entries of a catalog are a map from number to entry. What each of the
//! four operations answers, and what it leaves behind, is a function of that
//! map; the laws of the catalog are proved of these functions. A backend
//! that keeps to them obeys the laws: the one in memory does, and says so in
//! its contracts. The relational and the remote backend keep their entries
//! in an outside service; their contracts say what they ask of the service
//! and what they answer on each of its replies.

pub mod airtable;
pub mod memory;
pub mod run;
pub mod sqlite;

pub use airtable::AirtableRepository;
pub use memory::InMemoryRepository;
pub use run::{Protocol, Run, Service, Step};
pub use sqlite::SqliteRepository;

use crate::domain::entities::{
    entry_is_valid, Pokemon, PokemonName, PokemonNumber, PokemonTypes, PokemonView,
};
use vstd::prelude::*;

verus! {

/// Why an insertion failed.
#[derive(Clone, Copy, Debug, PartialEq, Eq, Structural)]
pub enum InsertError {
    /// An entry with that number exists already.
    Conflict,
    /// The storage itself failed.
    Unknown,
}

/// Why listing the entries failed.
#[derive(Clone, Copy, Debug, PartialEq, Eq, Structural)]
pub enum FetchAllError {
    /// The storage itself failed.
    Unknown,
}

/// Why fetching one entry failed.
#[derive(Clone, Copy, Debug, PartialEq, Eq, Structural)]
pub enum FetchOneError {
    /// The storage itself failed.
    Unknown,
    /// No entry has that number.
    NotFound,
}

/// Why a deletion failed.
#[derive(Clone, Copy, Debug, PartialEq, Eq, Structural)]
pub enum DeleteError {
    /// No entry has that number.
    NotFound,
    /// The storage itself failed.
    Unknown,
}

/// The four operations of a storage backend.
///
/// The trait itself promises nothing: a backend may keep its entries in
/// another process or on another machine, where nothing said here could be
/// held to it. A backend states on its own methods what it guarantees, and
/// the use cases hand on whatever the backend they are given guarantees.
///
/// `insert` and `delete` take the repository by exclusive reference: callers
/// that share a repository put it behind a lock of their own, so that one
/// operation is over before the next begins.
pub trait Repository {
    /// Stores a new entry, unless one with that number exists already:
    /// then it answers `Conflict`.
    fn insert(&mut self, number: PokemonNumber, name: PokemonName, types: PokemonTypes) -> Result<
        Pokemon,
        InsertError,
    >;

    /// Lists every entry.
    fn fetch_all(&self) -> Result<Vec<Pokemon>, FetchAllError>;

    /// Fetches the entry with that number; `NotFound` where there is none.
    fn fetch_one(&self, number: PokemonNumber) -> Result<Pokemon, FetchOneError>;

    /// Removes the entry with that number; `NotFound` where there is none.
    fn delete(&mut self, number: PokemonNumber) -> Result<(), DeleteError>;
}

/// The entries of a repository, by number.
pub type Entries = Map<u16, PokemonView>;

/// What inserting `entry` into `entries` answers, the storage permitting.
pub open spec fn insert_outcome(entries: Entries, entry: PokemonView) -> Result<
    PokemonView,
    InsertError,
> {
    if entries.contains_key(entry.number) {
        Err(InsertError::Conflict)
    } else {
        Ok(entry)
    }
}

/// The entries after inserting `entry` into `entries`.
pub open spec fn after_insert(entries: Entries, entry: PokemonView) -> Entries {
    if entries.contains_key(entry.number) {
        entries
    } else {
        entries.insert(entry.number, entry)
    }
}

/// What fetching `number` from `entries` answers, the storage permitting.
pub open spec fn fetch_one_outcome(entries: Entries, number: u16) -> Result<
    PokemonView,
    FetchOneError,
> {
    if entries.contains_key(number) {
        Ok(entries[number])
    } else {
        Err(FetchOneError::NotFound)
    }
}

/// What deleting `number` from `entries` answers, the storage permitting.
pub open spec fn delete_outcome(entries: Entries, number: u16) -> Result<(), DeleteError> {
    if entries.contains_key(number) {
        Ok(())
    } else {
        Err(DeleteError::NotFound)
    }
}

/// The entries after deleting `number` from `entries`.
pub open spec fn after_delete(entries: Entries, number: u16) -> Entries {
    entries.remove(number)
}

/// Whether `listing` lists `entries`: every entry once, by ascending number.
pub open spec fn is_listing(entries: Entries, listing: Seq<PokemonView>) -> bool {
    &&& forall|i: int, j: int|
        0 <= i < j < listing.len() ==> listing[i].number < listing[j].number
    &&& forall|i: int|
        0 <= i < listing.len() ==> entries.contains_key(#[trigger] listing[i].number)
            && entries[listing[i].number] == listing[i]
    &&& forall|number: u16| #[trigger]
        entries.contains_key(number) ==> exists|i: int|
            0 <= i < listing.len() && #[trigger] listing[i].number == number
}

/// An entry that was inserted under a free number is what a fetch by that
/// number answers afterwards, field by field.
pub proof fn lemma_insert_then_fetch(entries: Entries, entry: PokemonView)
    requires
        !entries.contains_key(entry.number),
    ensures
        insert_outcome(entries, entry) == Ok::<PokemonView, InsertError>(entry),
        fetch_one_outcome(after_insert(entries, entry), entry.number) == Ok::<
            PokemonView,
            FetchOneError,
        >(entry),
{
}

/// Of two insertions under one number the second answers `Conflict` and
/// changes nothing: a fetch still answers what it answered before it.
pub proof fn lemma_second_insert_conflicts(entries: Entries, first: PokemonView, second: PokemonView)
    requires
        first.number == second.number,
    ensures
        insert_outcome(after_insert(entries, first), second) == Err::<PokemonView, InsertError>(
            InsertError::Conflict,
        ),
        after_insert(after_insert(entries, first), second) == after_insert(entries, first),
        fetch_one_outcome(after_insert(after_insert(entries, first), second), first.number)
            == fetch_one_outcome(after_insert(entries, first), first.number),
        !entries.contains_key(first.number) ==> fetch_one_outcome(
            after_insert(after_insert(entries, first), second),
            first.number,
        ) == Ok::<PokemonView, FetchOneError>(first),
{
}

/// A number that no entry has answers `NotFound` to a fetch and to a
/// deletion, and the deletion changes nothing.
pub proof fn lemma_missing_is_not_found(entries: Entries, number: u16)
    requires
        !entries.contains_key(number),
    ensures
        fetch_one_outcome(entries, number) == Err::<PokemonView, FetchOneError>(
            FetchOneError::NotFound,
        ),
        delete_outcome(entries, number) == Err::<(), DeleteError>(DeleteError::NotFound),
        after_delete(entries, number) == entries,
{
    assert(entries.remove(number) =~= entries);
}

/// After a deletion, a fetch by that number and a second deletion both
/// answer `NotFound`, and the other entries are as they were.
pub proof fn lemma_delete_then_missing(entries: Entries, number: u16)
    ensures
        fetch_one_outcome(after_delete(entries, number), number) == Err::<
            PokemonView,
            FetchOneError,
        >(FetchOneError::NotFound),
        delete_outcome(after_delete(entries, number), number) == Err::<(), DeleteError>(
            DeleteError::NotFound,
        ),
        forall|other: u16|
            other != number ==> fetch_one_outcome(after_delete(entries, number), other)
                == #[trigger] fetch_one_outcome(entries, other),
{
}

/// A listing is fixed by the entries: two listings of the same entries are
/// the same sequence.
pub proof fn lemma_listing_is_unique(entries: Entries, one: Seq<PokemonView>, other: Seq<PokemonView>)
    requires
        is_listing(entries, one),
        is_listing(entries, other),
    ensures
        one == other,
    decreases one.len(),
{
    if one.len() == 0 {
        if other.len() > 0 {
            assert(entries.contains_key(other[0].number));
        }
    } else if other.len() == 0 {
        assert(entries.contains_key(one[0].number));
    } else {
        let a = one.last();
        let b = other.last();
        assert(entries.contains_key(a.number));
        assert(entries.contains_key(b.number));
        let i = choose|i: int| 0 <= i < other.len() && #[trigger] other[i].number == a.number;
        let j = choose|j: int| 0 <= j < one.len() && #[trigger] one[j].number == b.number;
        assert(a.number == b.number) by {
            if i < other.len() - 1 {
                assert(other[i].number < b.number);
            }
            if j < one.len() - 1 {
                assert(one[j].number < a.number);
            }
        }
        assert(a == b);
        let rest = entries.remove(a.number);
        assert(is_listing(rest, one.drop_last())) by {
            lemma_listing_without_last(entries, one);
        }
        assert(is_listing(rest, other.drop_last())) by {
            lemma_listing_without_last(entries, other);
        }
        lemma_listing_is_unique(rest, one.drop_last(), other.drop_last());
        assert(one =~= one.drop_last().push(a));
        assert(other =~= other.drop_last().push(b));
    }
}

/// A listing without its last entry lists the entries without that one.
proof fn lemma_listing_without_last(entries: Entries, listing: Seq<PokemonView>)
    requires
        is_listing(entries, listing),
        listing.len() > 0,
    ensures
        is_listing(entries.remove(listing.last().number), listing.drop_last()),
{
    let last = listing.last();
    let rest = entries.remove(last.number);
    let shorter = listing.drop_last();
    assert forall|i: int| 0 <= i < shorter.len() implies rest.contains_key(
        #[trigger] shorter[i].number,
    ) && rest[shorter[i].number] == shorter[i] by {
        assert(listing[i].number < last.number);
        assert(entries.contains_key(listing[i].number));
    }
    assert forall|number: u16| #[trigger] rest.contains_key(number) implies exists|i: int|
        0 <= i < shorter.len() && #[trigger] shorter[i].number == number by {
        assert(entries.contains_key(number));
        let i = choose|i: int| 0 <= i < listing.len() && #[trigger] listing[i].number == number;
        assert(shorter[i].number == number);
    }
}

/// The entries of a sequence of stored values, as plain values.
pub open spec fn views(pokemons: Seq<Pokemon>) -> Seq<PokemonView> {
    Seq::new(pokemons.len(), |i: int| pokemons[i]@)
}

/// An entry or an error, the entry as plain values.
pub open spec fn result_view<E>(result: Result<Pokemon, E>) -> Result<PokemonView, E> {
    match result {
        Ok(pokemon) => Ok(pokemon@),
        Err(error) => Err(error),
    }
}

/// The entry that a backend read back from its storage, if each of its
/// fields is valid; `error` if one is not.
pub open spec fn restored<E>(entry: PokemonView, error: E) -> Result<PokemonView, E> {
    if entry_is_valid(entry) {
        Ok(entry)
    } else {
        Err(error)
    }
}

/// Which backend a process is to run on.
#[derive(Debug)]
pub enum Backend {
    /// The relational backend, on the database file at that path.
    Sqlite { path: String },
    /// The remote backend, with that key in that workspace.
    Airtable { api_key: String, workspace_id: String },
    /// The in-memory backend.
    Memory,
}

/// A choice of backend as plain values.
pub enum BackendView {
    Sqlite { path: Seq<char> },
    Airtable { api_key: Seq<char>, workspace_id: Seq<char> },
    Memory,
}

impl View for Backend {
    type V = BackendView;

    open spec fn view(&self) -> BackendView {
        match *self {
            Backend::Sqlite { path } => BackendView::Sqlite { path: path@ },
            Backend::Airtable { api_key, workspace_id } => BackendView::Airtable {
                api_key: api_key@,
                workspace_id: workspace_id@,
            },
            Backend::Memory => BackendView::Memory,
        }
    }
}

impl Backend {
    /// The backend that the settings ask for: the relational one where a
    /// path is given; else the remote one where exactly a key and a
    /// workspace are given; else the one in memory.
    pub fn select(sqlite_path: Option<String>, airtable_value: Vec<String>) -> (backend: Self)
        ensures
            backend@ == match sqlite_path {
                Some(path) => BackendView::Sqlite { path: path@ },
                None => if airtable_value@.len() == 2 {
                    BackendView::Airtable {
                        api_key: airtable_value@[0]@,
                        workspace_id: airtable_value@[1]@,
                    }
                } else {
                    BackendView::Memory
                },
            },
    {
        match sqlite_path {
            Some(path) => Backend::Sqlite { path },
            None => {
                let mut values = airtable_value;
                if values.len() == 2 {
                    let workspace_id = values.pop().unwrap();
                    let api_key = values.pop().unwrap();
                    Backend::Airtable { api_key, workspace_id }
                } else {
                    Backend::Memory
                }
            },
        }
    }
}

} // verus!
