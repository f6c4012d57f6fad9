//! Value objects and the use cases built on them.
//!
//! A use case takes primitive fields, validates them, calls the storage
//! once and answers in primitive fields. It holds no state of its own.

pub mod create_pokemon;
pub mod delete_pokemon;
pub mod entities;
pub mod fetch_all_pokemons;
pub mod fetch_pokemon;
