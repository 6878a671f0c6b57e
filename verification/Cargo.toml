[package]
name = "envelope_auth"
version = "0.1.0"
edition = "2021"
publish = false

[dependencies]
orion = "*"
jsonwebtokens = "*"
chrono = "*"
serde_json = "*"
