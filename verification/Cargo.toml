[package]
name = "hyo"
version = "0.1.0"
edition = "2021"
publish = false

[dependencies]
rand = "0.8"
uuid = { version = "0.8", features = ["v4"] }
anyhow = "1"
log = "0.4"
futures = "0.3"
async-std = "1"
async-tungstenite = { version = "0.8", features = ["async-std-runtime"] }
serde = { version = "1", features = ["derive"] }
toml = "0.5"
semver = { version = "0.10", features = ["serde"] }
unic-langid = { version = "0.9", features = ["serde"] }
fluent = "0.12"
fluent-langneg = "0.13"
