//! The use case that removes an entry from the catalog.

use crate::domain::entities::{number_is_valid, PokemonNumber};
use crate::repositories::pokemon::{
    after_delete, delete_outcome, DeleteError, Entries, InMemoryRepository, Repository,
};
use vstd::prelude::*;

verus! {

/// The number of the entry to remove.
#[derive(Debug)]
pub struct Request {
    pub number: u16,
}

/// Why no entry was removed.
#[derive(Clone, Copy, Debug, PartialEq, Eq, Structural)]
pub enum Error {
    /// The number of the request is invalid.
    BadRequest,
    /// No entry has that number.
    NotFound,
    /// The storage itself failed.
    Unknown,
}

/// What the storage answered to a deletion, as an answer of the use case:
/// the error under the same name.
pub open spec fn response_to(answer: Result<(), DeleteError>) -> Result<(), Error> {
    match answer {
        Ok(()) => Ok(()),
        Err(DeleteError::NotFound) => Err(Error::NotFound),
        Err(DeleteError::Unknown) => Err(Error::Unknown),
    }
}

/// What deleting `number` from `entries` answers, the storage permitting.
pub open spec fn remove_outcome(entries: Entries, number: u16) -> Result<(), Error> {
    if number_is_valid(number) {
        response_to(delete_outcome(entries, number))
    } else {
        Err(Error::BadRequest)
    }
}

/// Turns the answer of the storage into the answer of the use case.
pub fn respond(answer: Result<(), DeleteError>) -> (res: Result<(), Error>)
    ensures
        res == response_to(answer),
{
    match answer {
        Ok(()) => Ok(()),
        Err(DeleteError::NotFound) => Err(Error::NotFound),
        Err(DeleteError::Unknown) => Err(Error::Unknown),
    }
}

/// Removes the entry with the number of `req` from the catalog of `repo`.
///
/// An invalid number answers `BadRequest`, and the repository is left as it
/// was, untouched. A valid one is handed to the repository in one call of
/// `delete`, and the answer of that call is the answer of the use case, by
/// `response_to`: so what the repository guarantees of `delete` holds of
/// this call.
pub fn execute<R: Repository>(repo: &mut R, req: Request) -> (res: Result<(), Error>)
    ensures
        !number_is_valid(req.number) ==> (res matches Err(Error::BadRequest)) && *final(repo)
            == *old(repo),
        number_is_valid(req.number) ==> exists|
            target: &mut R,
            number: PokemonNumber,
            answer: Result<(), DeleteError>,
        |
            {
                &&& #[trigger] call_ensures(R::delete, (target, number), answer)
                &&& *target == *old(repo)
                &&& *final(target) == *final(repo)
                &&& number@ == req.number
                &&& res == response_to(answer)
            },
{
    match PokemonNumber::try_from(req.number) {
        Ok(number) => respond(repo.delete(number)),
        Err(_) => Err(Error::BadRequest),
    }
}

/// On the in-memory backend, removing an entry answers what the entries
/// call for: `BadRequest` for an invalid number, `Unknown` from a
/// repository that was made to fail, `NotFound` for a number that no entry
/// has, and else nothing, the entry being gone from the repository.
pub proof fn lemma_remove_in_memory(
    before: InMemoryRepository,
    after: InMemoryRepository,
    requested: u16,
    res: Result<(), Error>,
)
    requires
        !number_is_valid(requested) ==> res == Err::<(), Error>(Error::BadRequest) && after
            == before,
        number_is_valid(requested) ==> exists|
            target: &mut InMemoryRepository,
            number: PokemonNumber,
            answer: Result<(), DeleteError>,
        |
            {
                &&& #[trigger] call_ensures(InMemoryRepository::delete, (target, number), answer)
                &&& *target == before
                &&& *final(target) == after
                &&& number@ == requested
                &&& res == response_to(answer)
            },
    ensures
        after.reliable() == before.reliable(),
        before.reliable() ==> res == remove_outcome(before.entries(), requested),
        before.reliable() && number_is_valid(requested) ==> after.entries() == after_delete(
            before.entries(),
            requested,
        ),
        !before.reliable() && number_is_valid(requested) ==> res == Err::<(), Error>(
            Error::Unknown,
        ),
        !(before.reliable() && number_is_valid(requested)) ==> after.entries()
            == before.entries(),
{
}

} // verus!
