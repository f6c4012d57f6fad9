//! Storage of catalog entries.

pub mod pokemon;
