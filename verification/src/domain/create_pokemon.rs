//! The use case that adds an entry to the catalog.

use crate::domain::entities::{
    entry_is_valid, fields, texts, Pokemon, PokemonName, PokemonNumber, PokemonTypes, PokemonView,
};
use crate::repositories::pokemon::{
    after_insert, insert_outcome, result_view, Entries, InMemoryRepository, InsertError,
    Repository,
};
use vstd::prelude::*;

verus! {

/// The fields of the entry to add.
#[derive(Debug)]
pub struct Request {
    pub number: u16,
    pub name: String,
    pub types: Vec<String>,
}

/// The fields of the entry that was added.
#[derive(Debug)]
pub struct Response {
    pub number: u16,
    pub name: String,
    pub types: Vec<String>,
}

/// Why no entry was added.
#[derive(Clone, Copy, Debug, PartialEq, Eq, Structural)]
pub enum Error {
    /// A field of the request is invalid.
    BadRequest,
    /// An entry with that number exists already.
    Conflict,
    /// The storage itself failed.
    Unknown,
}

impl View for Request {
    type V = PokemonView;

    open spec fn view(&self) -> PokemonView {
        fields(self.number, self.name@, texts(self.types@))
    }
}

impl View for Response {
    type V = PokemonView;

    open spec fn view(&self) -> PokemonView {
        fields(self.number, self.name@, texts(self.types@))
    }
}

/// What the storage answered to an insertion, as an answer of the use
/// case: the entry in primitive fields, or the error under the same name.
pub open spec fn response_to(answer: Result<PokemonView, InsertError>) -> Result<PokemonView, Error> {
    match answer {
        Ok(entry) => Ok(entry),
        Err(InsertError::Conflict) => Err(Error::Conflict),
        Err(InsertError::Unknown) => Err(Error::Unknown),
    }
}

/// What adding `request` to `entries` answers, the storage permitting.
pub open spec fn create_outcome(entries: Entries, request: PokemonView) -> Result<PokemonView, Error> {
    if entry_is_valid(request) {
        response_to(insert_outcome(entries, request))
    } else {
        Err(Error::BadRequest)
    }
}

/// A response or an error, the response as plain values.
pub open spec fn response_view(result: Result<Response, Error>) -> Result<PokemonView, Error> {
    match result {
        Ok(response) => Ok(response@),
        Err(error) => Err(error),
    }
}

/// Turns the answer of the storage into the answer of the use case.
pub fn respond(answer: Result<Pokemon, InsertError>) -> (res: Result<Response, Error>)
    ensures
        response_view(res) == response_to(result_view(answer)),
{
    match answer {
        Ok(pokemon) => {
            let (number, name, types) = pokemon.into_fields();
            Ok(Response { number, name, types })
        },
        Err(InsertError::Conflict) => Err(Error::Conflict),
        Err(InsertError::Unknown) => Err(Error::Unknown),
    }
}

/// Adds the entry of `req` to the catalog of `repo`.
///
/// An invalid field answers `BadRequest`, and the repository is left as it
/// was, untouched. A valid request is handed to the repository in one call
/// of `insert`, with the value objects of its three fields, and the answer
/// of that call is the answer of the use case, by `response_to`: so what the
/// repository guarantees of `insert` holds of this call.
pub fn execute<R: Repository>(repo: &mut R, req: Request) -> (res: Result<Response, Error>)
    ensures
        !entry_is_valid(req@) ==> (res matches Err(Error::BadRequest)) && *final(repo) == *old(repo),
        entry_is_valid(req@) ==> exists|
            target: &mut R,
            number: PokemonNumber,
            name: PokemonName,
            types: PokemonTypes,
            answer: Result<Pokemon, InsertError>,
        |
            {
                &&& #[trigger] call_ensures(R::insert, (target, number, name, types), answer)
                &&& *target == *old(repo)
                &&& *final(target) == *final(repo)
                &&& fields(number@, name@, types@) == req@
                &&& response_view(res) == response_to(result_view(answer))
            },
{
    match Pokemon::from_fields(req.number, req.name, req.types) {
        Ok(pokemon) => respond(repo.insert(pokemon.number, pokemon.name, pokemon.types)),
        Err(_) => Err(Error::BadRequest),
    }
}

/// On the in-memory backend, adding an entry answers what the entries call
/// for: `BadRequest` for an invalid field, `Unknown` from a repository that
/// was made to fail, `Conflict` for a number that is taken, and else the
/// fields of the request, which are then an entry of the repository.
pub proof fn lemma_create_in_memory(
    before: InMemoryRepository,
    after: InMemoryRepository,
    request: PokemonView,
    res: Result<PokemonView, Error>,
)
    requires
        !entry_is_valid(request) ==> res == Err::<PokemonView, Error>(Error::BadRequest) && after
            == before,
        entry_is_valid(request) ==> exists|
            target: &mut InMemoryRepository,
            number: PokemonNumber,
            name: PokemonName,
            types: PokemonTypes,
            answer: Result<Pokemon, InsertError>,
        |
            {
                &&& #[trigger] call_ensures(
                    InMemoryRepository::insert,
                    (target, number, name, types),
                    answer,
                )
                &&& *target == before
                &&& *final(target) == after
                &&& fields(number@, name@, types@) == request
                &&& res == response_to(result_view(answer))
            },
    ensures
        after.reliable() == before.reliable(),
        before.reliable() ==> res == create_outcome(before.entries(), request),
        before.reliable() && entry_is_valid(request) ==> after.entries() == after_insert(
            before.entries(),
            request,
        ),
        !before.reliable() && entry_is_valid(request) ==> res == Err::<PokemonView, Error>(
            Error::Unknown,
        ),
        !(before.reliable() && entry_is_valid(request)) ==> after.entries() == before.entries(),
{
}

} // verus!
