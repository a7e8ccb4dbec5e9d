[package]
name = "ethereal"
version = "0.1.0"
edition = "2021"
publish = false

[dependencies]
rust-crypto = "0.2.36"
serde_json = "1"
rand = "0.8"
reqwest = { version = "0.11", default-features = false, features = ["blocking"] }
