[package]
name = "swarm_voting"
version = "0.1.0"
edition = "2021"
publish = false

[dependencies]
exonum = "0.9"
failure = "0.1"
serde = { version = "1", features = ["derive"] }
serde_derive = "1"
serde_json = "1"
