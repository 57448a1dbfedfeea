[package]
name = "genanki_rs"
version = "0.1.0"
edition = "2021"
publish = false

[dependencies]
rusqlite = { version = "*", features = ["bundled"] }
serde_json = "*"
tempfile = "*"
zip = { version = "*", default-features = false, features = ["deflate"] }
