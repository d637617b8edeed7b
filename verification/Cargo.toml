[package]
name = "ergokv"
version = "0.1.0"
edition = "2021"
publish = false

[dependencies]
ciborium = "0.2"
futures = "0.3"
serde = { version = "1", features = ["derive"] }
serde_json = "1"
serde_with = "3"
tikv-client = "0.3"
