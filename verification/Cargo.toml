[package]
name = "fxrecord"
version = "0.1.0"
edition = "2021"
publish = false

[dependencies]
rand = "0.8"
serde = { version = "1", features = ["derive"] }
serde_json = "1"
zip = "0.6"
reqwest = { version = "0.11", default-features = false, features = ["blocking"] }
