//! The transient backend: the entries live in memory, by ascending number.
//!
//! Every operation that changes the entries takes the repository by
//! exclusive reference, so one operation is over before the next begins.
//! Callers that share a repository put it behind a lock of their own.

use crate::domain::entities::{fields, Pokemon, PokemonName, PokemonNumber, PokemonTypes, PokemonView};
use crate::repositories::pokemon::{
    after_delete, after_insert, delete_outcome, fetch_one_outcome, insert_outcome, is_listing,
    result_view, views, DeleteError, Entries, FetchAllError, FetchOneError, InsertError,
    Repository,
};
use vstd::prelude::*;

verus! {

/// Whether the numbers of `entries` ascend strictly.
spec fn ascending(entries: Seq<PokemonView>) -> bool {
    forall|i: int, j: int| 0 <= i < j < entries.len() ==> entries[i].number < entries[j].number
}

/// Whether one of `entries` has that number.
spec fn holds(entries: Seq<PokemonView>, number: u16) -> bool {
    exists|i: int| 0 <= i < entries.len() && #[trigger] entries[i].number == number
}

/// Where in `entries` the entry with that number stands.
spec fn place(entries: Seq<PokemonView>, number: u16) -> int {
    choose|i: int| 0 <= i < entries.len() && #[trigger] entries[i].number == number
}

/// The entries of a sequence, by number.
spec fn catalog(entries: Seq<PokemonView>) -> Entries {
    Map::new(|number: u16| holds(entries, number), |number: u16| entries[place(entries, number)])
}

/// Each entry of an ascending sequence is the one that the catalog has
/// under its number.
proof fn lemma_catalog_at(entries: Seq<PokemonView>, i: int)
    requires
        ascending(entries),
        0 <= i < entries.len(),
    ensures
        catalog(entries).contains_key(entries[i].number),
        catalog(entries)[entries[i].number] == entries[i],
{
    let number = entries[i].number;
    let at = place(entries, number);
    assert(holds(entries, number));
    if at < i {
        assert(entries[at].number < entries[i].number);
    } else if i < at {
        assert(entries[i].number < entries[at].number);
    }
}

/// An ascending sequence lists its catalog.
proof fn lemma_listing(entries: Seq<PokemonView>)
    requires
        ascending(entries),
    ensures
        is_listing(catalog(entries), entries),
{
    assert forall|i: int| 0 <= i < entries.len() implies catalog(entries).contains_key(
        #[trigger] entries[i].number,
    ) && catalog(entries)[entries[i].number] == entries[i] by {
        lemma_catalog_at(entries, i);
    }
    assert forall|number: u16| #[trigger] catalog(entries).contains_key(number) implies exists|
        i: int,
    |
        0 <= i < entries.len() && #[trigger] entries[i].number == number by {
        assert(holds(entries, number));
    }
}

/// A number that falls between two neighbours of an ascending sequence, or
/// before the first or after the last entry, is not in the catalog.
proof fn lemma_absent(entries: Seq<PokemonView>, number: u16, at: int)
    requires
        ascending(entries),
        0 <= at <= entries.len(),
        forall|k: int| 0 <= k < at ==> (#[trigger] entries[k]).number < number,
        at < entries.len() ==> number < entries[at].number,
    ensures
        !catalog(entries).contains_key(number),
{
    if holds(entries, number) {
        let i = place(entries, number);
        if i > at {
            assert(entries[at].number < entries[i].number);
        }
    }
}

/// Putting an entry at its place in an ascending sequence keeps the
/// sequence ascending and adds the entry to the catalog.
proof fn lemma_insert(entries: Seq<PokemonView>, at: int, entry: PokemonView)
    requires
        ascending(entries),
        0 <= at <= entries.len(),
        forall|k: int| 0 <= k < at ==> (#[trigger] entries[k]).number < entry.number,
        at < entries.len() ==> entry.number < entries[at].number,
    ensures
        ascending(entries.insert(at, entry)),
        catalog(entries.insert(at, entry)) == catalog(entries).insert(entry.number, entry),
{
    let longer = entries.insert(at, entry);
    assert forall|i: int, j: int| 0 <= i < j < longer.len() implies longer[i].number
        < longer[j].number by {
        if j > at && at < entries.len() {
            assert(entries[at].number <= entries[j - 1].number) by {
                if at < j - 1 {
                    assert(entries[at].number < entries[j - 1].number);
                }
            }
        }
    }
    assert forall|number: u16|
        catalog(longer).contains_key(number) == #[trigger] catalog(entries).insert(
            entry.number,
            entry,
        ).contains_key(number) by {
        if holds(longer, number) {
            let i = place(longer, number);
            if i < at {
                assert(entries[i].number == number);
            } else if i > at {
                assert(entries[i - 1].number == number);
            }
        }
        if holds(entries, number) {
            let i = place(entries, number);
            if i < at {
                assert(longer[i].number == number);
            } else {
                assert(longer[i + 1].number == number);
            }
        }
        if number == entry.number {
            assert(longer[at].number == number);
        }
    }
    assert forall|number: u16| #[trigger] catalog(longer).contains_key(number) implies catalog(
        longer,
    )[number] == catalog(entries).insert(entry.number, entry)[number] by {
        let i = place(longer, number);
        lemma_catalog_at(longer, i);
        if i < at {
            lemma_catalog_at(entries, i);
        } else if i > at {
            lemma_catalog_at(entries, i - 1);
        }
    }
    assert(catalog(longer) =~= catalog(entries).insert(entry.number, entry));
}

/// Taking an entry out of an ascending sequence keeps the sequence
/// ascending and takes the entry out of the catalog.
proof fn lemma_remove(entries: Seq<PokemonView>, at: int)
    requires
        ascending(entries),
        0 <= at < entries.len(),
    ensures
        ascending(entries.remove(at)),
        catalog(entries.remove(at)) == catalog(entries).remove(entries[at].number),
{
    let shorter = entries.remove(at);
    let gone = entries[at].number;
    assert forall|i: int, j: int| 0 <= i < j < shorter.len() implies shorter[i].number
        < shorter[j].number by {
        let from_i = if i < at { i } else { i + 1 };
        let from_j = if j < at { j } else { j + 1 };
        assert(entries[from_i].number < entries[from_j].number);
    }
    assert forall|number: u16|
        catalog(shorter).contains_key(number) == #[trigger] catalog(entries).remove(
            gone,
        ).contains_key(number) by {
        if holds(shorter, number) {
            let i = place(shorter, number);
            let from = if i < at { i } else { i + 1 };
            assert(entries[from].number == number);
            if from < at {
                assert(entries[from].number < entries[at].number);
            } else {
                assert(entries[at].number < entries[from].number);
            }
        }
        if holds(entries, number) && number != gone {
            let i = place(entries, number);
            if i < at {
                assert(shorter[i].number == number);
            } else {
                assert(shorter[i - 1].number == number);
            }
        }
    }
    assert forall|number: u16| #[trigger] catalog(shorter).contains_key(number) implies catalog(
        shorter,
    )[number] == catalog(entries).remove(gone)[number] by {
        let i = place(shorter, number);
        lemma_catalog_at(shorter, i);
        lemma_catalog_at(entries, if i < at { i } else { i + 1 });
    }
    assert(catalog(shorter) =~= catalog(entries).remove(gone));
}

/// A repository that keeps its entries in memory.
#[derive(Debug)]
pub struct InMemoryRepository {
    error: bool,
    pokemons: Vec<Pokemon>,
}

impl InMemoryRepository {
    #[verifier::type_invariant]
    spec fn sorted(self) -> bool {
        ascending(views(self.pokemons@))
    }

    /// The entries held, by number.
    pub closed spec fn entries(&self) -> Entries {
        catalog(views(self.pokemons@))
    }

    /// Whether the repository answers by its entries; one that was made to
    /// fail answers `Unknown` to everything.
    pub closed spec fn reliable(&self) -> bool {
        !self.error
    }

    /// An empty repository that never fails.
    pub fn new() -> (repo: Self)
        ensures
            repo.entries() == Entries::empty(),
            repo.reliable(),
    {
        let repo = InMemoryRepository { error: false, pokemons: Vec::new() };
        assert(catalog(views(repo.pokemons@)) =~= Entries::empty());
        repo
    }

    /// The same repository, failing every operation from now on.
    pub fn with_error(self) -> (repo: Self)
        ensures
            repo.entries() == self.entries(),
            !repo.reliable(),
    {
        proof {
            use_type_invariant(&self);
        }
        InMemoryRepository { error: true, pokemons: self.pokemons }
    }

    /// Where the entry with that number stands, or would stand.
    fn position(&self, number: u16) -> (at: usize)
        ensures
            at <= self.pokemons@.len(),
            forall|k: int| 0 <= k < at ==> (#[trigger] views(self.pokemons@)[k]).number < number,
            at < self.pokemons@.len() ==> number <= views(self.pokemons@)[at as int].number,
    {
        let mut at: usize = 0;
        while at < self.pokemons.len() && self.pokemons[at].number.value() < number
            invariant
                at <= self.pokemons@.len(),
                forall|k: int|
                    0 <= k < at ==> (#[trigger] views(self.pokemons@)[k]).number < number,
            decreases self.pokemons@.len() - at,
        {
            at += 1;
        }
        at
    }
}

impl Repository for InMemoryRepository {
    /// Answers `Unknown` exactly when the repository was made to fail, and
    /// then changes nothing. Else it answers `Conflict` where the number is
    /// taken, and changes nothing; where the number is free, it adds the
    /// entry and answers it.
    fn insert(&mut self, number: PokemonNumber, name: PokemonName, types: PokemonTypes) -> (res:
        Result<Pokemon, InsertError>)
        ensures
            final(self).reliable() == old(self).reliable(),
            !old(self).reliable() ==> (res matches Err(InsertError::Unknown))
                && final(self).entries() == old(self).entries(),
            old(self).reliable() ==> {
                let entry = fields(number@, name@, types@);
                &&& result_view(res) == insert_outcome(old(self).entries(), entry)
                &&& final(self).entries() == after_insert(old(self).entries(), entry)
            },
    {
        proof {
            use_type_invariant(&*self);
        }
        if self.error {
            return Err(InsertError::Unknown);
        }
        let ghost before = views(self.pokemons@);
        let at = self.position(number.value());
        if at < self.pokemons.len() && self.pokemons[at].number.value() == number.value() {
            proof {
                lemma_catalog_at(before, at as int);
            }
            return Err(InsertError::Conflict);
        }
        let pokemon = Pokemon::new(number, name, types);
        let stored = pokemon.clone();
        proof {
            lemma_absent(before, number@, at as int);
            lemma_insert(before, at as int, stored@);
        }
        let mut pokemons: Vec<Pokemon> = Vec::new();
        assert(views(pokemons@) =~= Seq::empty());
        std::mem::swap(&mut self.pokemons, &mut pokemons);
        pokemons.insert(at, stored);
        assert(views(pokemons@) =~= before.insert(at as int, pokemon@));
        self.pokemons = pokemons;
        Ok(pokemon)
    }

    /// Answers `Unknown` exactly when the repository was made to fail.
    /// Else it lists every entry once, by ascending number.
    fn fetch_all(&self) -> (res: Result<Vec<Pokemon>, FetchAllError>)
        ensures
            res is Err <==> !self.reliable(),
            res matches Ok(pokemons) ==> is_listing(self.entries(), views(pokemons@)),
    {
        proof {
            use_type_invariant(self);
        }
        if self.error {
            return Err(FetchAllError::Unknown);
        }
        let mut pokemons: Vec<Pokemon> = Vec::new();
        let mut i: usize = 0;
        while i < self.pokemons.len()
            invariant
                i <= self.pokemons@.len(),
                pokemons@.len() == i,
                forall|k: int| 0 <= k < i ==> (#[trigger] pokemons@[k])@ == self.pokemons@[k]@,
            decreases self.pokemons@.len() - i,
        {
            pokemons.push(self.pokemons[i].clone());
            i += 1;
        }
        proof {
            assert(views(pokemons@) =~= views(self.pokemons@));
            lemma_listing(views(self.pokemons@));
        }
        Ok(pokemons)
    }

    /// Answers `Unknown` exactly when the repository was made to fail.
    /// Else it answers the entry with that number, or `NotFound` where
    /// there is none.
    fn fetch_one(&self, number: PokemonNumber) -> (res: Result<Pokemon, FetchOneError>)
        ensures
            !self.reliable() ==> res matches Err(FetchOneError::Unknown),
            self.reliable() ==> result_view(res) == fetch_one_outcome(self.entries(), number@),
    {
        proof {
            use_type_invariant(self);
        }
        if self.error {
            return Err(FetchOneError::Unknown);
        }
        let at = self.position(number.value());
        if at < self.pokemons.len() && self.pokemons[at].number.value() == number.value() {
            proof {
                lemma_catalog_at(views(self.pokemons@), at as int);
            }
            Ok(self.pokemons[at].clone())
        } else {
            proof {
                lemma_absent(views(self.pokemons@), number@, at as int);
            }
            Err(FetchOneError::NotFound)
        }
    }

    /// Answers `Unknown` exactly when the repository was made to fail, and
    /// then changes nothing. Else it removes the entry with that number, or
    /// answers `NotFound` where there is none, and changes nothing.
    fn delete(&mut self, number: PokemonNumber) -> (res: Result<(), DeleteError>)
        ensures
            final(self).reliable() == old(self).reliable(),
            !old(self).reliable() ==> (res matches Err(DeleteError::Unknown))
                && final(self).entries() == old(self).entries(),
            old(self).reliable() ==> {
                &&& res == delete_outcome(old(self).entries(), number@)
                &&& final(self).entries() == after_delete(old(self).entries(), number@)
            },
    {
        proof {
            use_type_invariant(&*self);
        }
        if self.error {
            return Err(DeleteError::Unknown);
        }
        let ghost before = views(self.pokemons@);
        let at = self.position(number.value());
        if at < self.pokemons.len() && self.pokemons[at].number.value() == number.value() {
            proof {
                lemma_catalog_at(before, at as int);
                lemma_remove(before, at as int);
            }
            let mut pokemons: Vec<Pokemon> = Vec::new();
            assert(views(pokemons@) =~= Seq::empty());
            std::mem::swap(&mut self.pokemons, &mut pokemons);
            let _ = pokemons.remove(at);
            assert(views(pokemons@) =~= before.remove(at as int));
            self.pokemons = pokemons;
            Ok(())
        } else {
            proof {
                lemma_absent(before, number@, at as int);
                assert(catalog(before).remove(number@) =~= catalog(before));
            }
            Err(DeleteError::NotFound)
        }
    }
}

} // verus!
