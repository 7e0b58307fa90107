[package]
name = "visited_systems"
version = "0.1.0"
edition = "2021"
publish = false

[dependencies]
anyhow = "1"
clap = "2"
reqwest = { version = "0.11", features = ["blocking"] }
serde_json = "1"
