//! How the answers of the use cases are told over HTTP.

use crate::domain::{create_pokemon, delete_pokemon, fetch_all_pokemons, fetch_pokemon};
use vstd::prelude::*;

verus! {

/// The status of an answer.
#[derive(Clone, Copy, Debug, PartialEq, Eq, Structural)]
pub enum Status {
    Success,
    BadRequest,
    NotFound,
    Conflict,
    InternalServerError,
}

impl Status {
    /// The status code.
    pub open spec fn spec_code(self) -> u16 {
        match self {
            Status::Success => 200,
            Status::BadRequest => 400,
            Status::NotFound => 404,
            Status::Conflict => 409,
            Status::InternalServerError => 500,
        }
    }

    /// The status code.
    #[verifier::when_used_as_spec(spec_code)]
    pub fn code(self) -> (code: u16)
        ensures
            code == self.spec_code(),
    {
        match self {
            Status::Success => 200,
            Status::BadRequest => 400,
            Status::NotFound => 404,
            Status::Conflict => 409,
            Status::InternalServerError => 500,
        }
    }

    /// The status that tells why no entry was added.
    pub fn of_create(error: create_pokemon::Error) -> (status: Status)
        ensures
            status == match error {
                create_pokemon::Error::BadRequest => Status::BadRequest,
                create_pokemon::Error::Conflict => Status::Conflict,
                create_pokemon::Error::Unknown => Status::InternalServerError,
            },
    {
        match error {
            create_pokemon::Error::BadRequest => Status::BadRequest,
            create_pokemon::Error::Conflict => Status::Conflict,
            create_pokemon::Error::Unknown => Status::InternalServerError,
        }
    }

    /// The status that tells why no entry was fetched.
    pub fn of_fetch(error: fetch_pokemon::Error) -> (status: Status)
        ensures
            status == match error {
                fetch_pokemon::Error::BadRequest => Status::BadRequest,
                fetch_pokemon::Error::NotFound => Status::NotFound,
                fetch_pokemon::Error::Unknown => Status::InternalServerError,
            },
    {
        match error {
            fetch_pokemon::Error::BadRequest => Status::BadRequest,
            fetch_pokemon::Error::NotFound => Status::NotFound,
            fetch_pokemon::Error::Unknown => Status::InternalServerError,
        }
    }

    /// The status that tells why the catalog was not listed.
    pub fn of_fetch_all(error: fetch_all_pokemons::Error) -> (status: Status)
        ensures
            status == Status::InternalServerError,
    {
        match error {
            fetch_all_pokemons::Error::Unknown => Status::InternalServerError,
        }
    }

    /// The status of a deletion: `Success` where the entry was removed, else the
    /// one that tells why it was not.
    pub fn of_delete(answer: Result<(), delete_pokemon::Error>) -> (status: Status)
        ensures
            status == match answer {
                Ok(()) => Status::Success,
                Err(delete_pokemon::Error::BadRequest) => Status::BadRequest,
                Err(delete_pokemon::Error::NotFound) => Status::NotFound,
                Err(delete_pokemon::Error::Unknown) => Status::InternalServerError,
            },
    {
        match answer {
            Ok(()) => Status::Success,
            Err(delete_pokemon::Error::BadRequest) => Status::BadRequest,
            Err(delete_pokemon::Error::NotFound) => Status::NotFound,
            Err(delete_pokemon::Error::Unknown) => Status::InternalServerError,
        }
    }
}

} // verus!
