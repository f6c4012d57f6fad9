//! A catalog of uniquely numbered creature records.
//!
//! `domain` holds the validated value objects of an entry and the four use
//! cases: create, fetch one, fetch all, delete. `repositories` holds the
//! storage: the operations of a backend, the laws of the catalog, and three
//! backends, one in memory, one on a relational database and one on a
//! remote table. `api` tells the answers of the use cases as HTTP statuses.
//!
//! Nothing here reads or writes outside the process. The backends that
//! need an outside service ask it through `repositories::pokemon::Service`,
//! which the program that uses them implements.

pub mod api;
pub mod domain;
pub mod repositories;
