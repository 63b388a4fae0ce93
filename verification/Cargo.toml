[package]
name = "reemerge"
version = "0.1.0"
edition = "2021"
publish = false

[dependencies]
anyhow = "1"
colored = "2"
dialoguer = { version = "0.11", features = ["fuzzy-select"] }
