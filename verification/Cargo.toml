[package]
name = "ps2_suitcase"
version = "0.1.0"
edition = "2021"
publish = false

[dependencies]
encoding_rs = "0.8"
unicode-normalization = "0.1"
indexmap = "2"
image = { version = "0.25", default-features = false, features = ["png"] }
chrono = "0.4"
serde = { version = "1", features = ["derive"] }
toml = "0.8"
argh = "0.1"
colored = "2"
