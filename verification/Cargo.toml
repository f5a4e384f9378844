[package]
name = "nico_mylist"
version = "0.1.0"
edition = "2021"
publish = false

[dependencies]
reqwest = { version = "0.11", features = ["cookies"] }
serde = { version = "1", features = ["derive"] }
serde_json = "1"
