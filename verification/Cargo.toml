[package]
name = "browsercookie"
version = "0.1.0"
edition = "2021"
publish = false

[dependencies]
cookie = "0.18"
regex = "1"
rusqlite = { version = "*", features = ["bundled"] }
