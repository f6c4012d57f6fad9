[package]
name = "pokedex"
version = "0.1.0"
edition = "2021"
publish = false

[dependencies]
clap = { version = "3", features = ["derive"] }
dialoguer = "*"
rouille = "3"
rusqlite = "*"
serde = { version = "1", features = ["derive"] }
ureq = { version = "2", features = ["json"] }
