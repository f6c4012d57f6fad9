//! The use case that lists the catalog.

use crate::domain::entities::{fields, texts, Pokemon, PokemonView};
use crate::repositories::pokemon::{
    is_listing, views, FetchAllError, InMemoryRepository, Repository,
};
use vstd::prelude::*;

verus! {

/// The fields of one entry of the listing.
#[derive(Debug)]
pub struct Response {
    pub number: u16,
    pub name: String,
    pub types: Vec<String>,
}

/// Why the catalog was not listed.
#[derive(Clone, Copy, Debug, PartialEq, Eq, Structural)]
pub enum Error {
    /// The storage itself failed.
    Unknown,
}

impl View for Response {
    type V = PokemonView;

    open spec fn view(&self) -> PokemonView {
        fields(self.number, self.name@, texts(self.types@))
    }
}

/// The responses as plain values, in order.
pub open spec fn response_views(responses: Seq<Response>) -> Seq<PokemonView> {
    Seq::new(responses.len(), |i: int| responses[i]@)
}

/// What the storage answered to a listing, as an answer of the use case:
/// the entries in primitive fields and in the same order, or the error
/// under the same name.
pub open spec fn response_to(answer: Result<Vec<Pokemon>, FetchAllError>) -> Result<
    Seq<PokemonView>,
    Error,
> {
    match answer {
        Ok(pokemons) => Ok(views(pokemons@)),
        Err(FetchAllError::Unknown) => Err(Error::Unknown),
    }
}

/// The responses or an error, the responses as plain values.
pub open spec fn listing_view(result: Result<Vec<Response>, Error>) -> Result<
    Seq<PokemonView>,
    Error,
> {
    match result {
        Ok(responses) => Ok(response_views(responses@)),
        Err(error) => Err(error),
    }
}

/// Turns the answer of the storage into the answer of the use case.
pub fn respond(answer: Result<Vec<Pokemon>, FetchAllError>) -> (res: Result<Vec<Response>, Error>)
    ensures
        listing_view(res) == response_to(answer),
{
    match answer {
        Ok(pokemons) => {
            let ghost entries = views(pokemons@);
            let mut pokemons = pokemons;
            let mut responses: Vec<Response> = Vec::new();
            // The entries are taken from the back, so the responses are
            // turned round at the end.
            while pokemons.len() > 0
                invariant
                    pokemons@.len() + responses@.len() == entries.len(),
                    views(pokemons@) == entries.take(pokemons@.len() as int),
                    forall|k: int|
                        0 <= k < responses@.len() ==> (#[trigger] responses@[k])@
                            == entries[entries.len() - 1 - k],
                decreases pokemons@.len(),
            {
                let ghost before = views(pokemons@);
                let pokemon = pokemons.pop().unwrap();
                assert(pokemon@ == before[before.len() - 1]);
                assert(views(pokemons@) =~= entries.take(pokemons@.len() as int));
                let (number, name, types) = pokemon.into_fields();
                responses.push(Response { number, name, types });
            }
            let mut ordered: Vec<Response> = Vec::new();
            while responses.len() > 0
                invariant
                    ordered@.len() + responses@.len() == entries.len(),
                    forall|k: int|
                        0 <= k < responses@.len() ==> (#[trigger] responses@[k])@
                            == entries[entries.len() - 1 - k],
                    forall|k: int|
                        0 <= k < ordered@.len() ==> (#[trigger] ordered@[k])@ == entries[k],
                decreases responses@.len(),
            {
                let response = responses.pop().unwrap();
                ordered.push(response);
            }
            assert(response_views(ordered@) =~= entries);
            Ok(ordered)
        },
        Err(FetchAllError::Unknown) => Err(Error::Unknown),
    }
}

/// Lists the catalog of `repo`, in one call of `fetch_all`: the answer of
/// that call is the answer of the use case, each entry in primitive fields
/// and in the same order. So what the repository guarantees of `fetch_all`
/// holds of this call.
pub fn execute<R: Repository>(repo: &R) -> (res: Result<Vec<Response>, Error>)
    ensures
        exists|answer: Result<Vec<Pokemon>, FetchAllError>|
            {
                &&& #[trigger] call_ensures(R::fetch_all, (repo,), answer)
                &&& listing_view(res) == response_to(answer)
            },
{
    respond(repo.fetch_all())
}

/// On the in-memory backend, the listing holds every entry once, by
/// ascending number; a repository that was made to fail answers `Unknown`,
/// and no other does.
pub proof fn lemma_list_in_memory(
    repo: InMemoryRepository,
    res: Result<Seq<PokemonView>, Error>,
)
    requires
        exists|answer: Result<Vec<Pokemon>, FetchAllError>|
            {
                &&& #[trigger] call_ensures(InMemoryRepository::fetch_all, (&repo,), answer)
                &&& res == response_to(answer)
            },
    ensures
        res is Err <==> !repo.reliable(),
        res matches Ok(listing) ==> is_listing(repo.entries(), listing),
{
}

} // verus!
