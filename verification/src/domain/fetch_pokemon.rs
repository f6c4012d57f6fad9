//! The use case that fetches one entry of the catalog.

use crate::domain::entities::{fields, number_is_valid, texts, Pokemon, PokemonNumber, PokemonView};
use crate::repositories::pokemon::{
    fetch_one_outcome, result_view, Entries, FetchOneError, InMemoryRepository, Repository,
};
use vstd::prelude::*;

verus! {

/// The number of the entry to fetch.
#[derive(Debug)]
pub struct Request {
    pub number: u16,
}

/// The fields of the entry that was fetched.
#[derive(Debug)]
pub struct Response {
    pub number: u16,
    pub name: String,
    pub types: Vec<String>,
}

/// Why no entry was fetched.
#[derive(Clone, Copy, Debug, PartialEq, Eq, Structural)]
pub enum Error {
    /// The number of the request is invalid.
    BadRequest,
    /// No entry has that number.
    NotFound,
    /// The storage itself failed.
    Unknown,
}

impl View for Response {
    type V = PokemonView;

    open spec fn view(&self) -> PokemonView {
        fields(self.number, self.name@, texts(self.types@))
    }
}

/// What the storage answered to a fetch, as an answer of the use case: the
/// entry in primitive fields, or the error under the same name.
pub open spec fn response_to(answer: Result<PokemonView, FetchOneError>) -> Result<
    PokemonView,
    Error,
> {
    match answer {
        Ok(entry) => Ok(entry),
        Err(FetchOneError::NotFound) => Err(Error::NotFound),
        Err(FetchOneError::Unknown) => Err(Error::Unknown),
    }
}

/// What fetching `number` from `entries` answers, the storage permitting.
pub open spec fn fetch_outcome(entries: Entries, number: u16) -> Result<PokemonView, Error> {
    if number_is_valid(number) {
        response_to(fetch_one_outcome(entries, number))
    } else {
        Err(Error::BadRequest)
    }
}

/// A response or an error, the response as plain values.
pub open spec fn response_view(result: Result<Response, Error>) -> Result<PokemonView, Error> {
    match result {
        Ok(response) => Ok(response@),
        Err(error) => Err(error),
    }
}

/// Turns the answer of the storage into the answer of the use case.
pub fn respond(answer: Result<Pokemon, FetchOneError>) -> (res: Result<Response, Error>)
    ensures
        response_view(res) == response_to(result_view(answer)),
{
    match answer {
        Ok(pokemon) => {
            let (number, name, types) = pokemon.into_fields();
            Ok(Response { number, name, types })
        },
        Err(FetchOneError::NotFound) => Err(Error::NotFound),
        Err(FetchOneError::Unknown) => Err(Error::Unknown),
    }
}

/// Fetches the entry with the number of `req` from the catalog of `repo`.
///
/// An invalid number answers `BadRequest`. A valid one is handed to the
/// repository in one call of `fetch_one`, and the answer of that call is the
/// answer of the use case, by `response_to`: so what the repository
/// guarantees of `fetch_one` holds of this call.
pub fn execute<R: Repository>(repo: &R, req: Request) -> (res: Result<Response, Error>)
    ensures
        !number_is_valid(req.number) ==> res matches Err(Error::BadRequest),
        number_is_valid(req.number) ==> exists|
            number: PokemonNumber,
            answer: Result<Pokemon, FetchOneError>,
        |
            {
                &&& #[trigger] call_ensures(R::fetch_one, (repo, number), answer)
                &&& number@ == req.number
                &&& response_view(res) == response_to(result_view(answer))
            },
{
    match PokemonNumber::try_from(req.number) {
        Ok(number) => respond(repo.fetch_one(number)),
        Err(_) => Err(Error::BadRequest),
    }
}

/// On the in-memory backend, fetching an entry answers what the entries
/// call for: `BadRequest` for an invalid number, `Unknown` from a
/// repository that was made to fail, `NotFound` for a number that no entry
/// has, and else the fields of the entry.
pub proof fn lemma_fetch_in_memory(
    repo: InMemoryRepository,
    requested: u16,
    res: Result<PokemonView, Error>,
)
    requires
        !number_is_valid(requested) ==> res == Err::<PokemonView, Error>(Error::BadRequest),
        number_is_valid(requested) ==> exists|
            number: PokemonNumber,
            answer: Result<Pokemon, FetchOneError>,
        |
            {
                &&& #[trigger] call_ensures(InMemoryRepository::fetch_one, (&repo, number), answer)
                &&& number@ == requested
                &&& res == response_to(result_view(answer))
            },
    ensures
        repo.reliable() ==> res == fetch_outcome(repo.entries(), requested),
        !repo.reliable() && number_is_valid(requested) ==> res == Err::<PokemonView, Error>(
            Error::Unknown,
        ),
{
}

} // verus!
