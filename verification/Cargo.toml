[package]
name = "limiteron"
version = "0.1.0"
edition = "2021"
publish = false

[dependencies]
ahash = "0.8"
chrono = { version = "0.4", default-features = false, features = ["clock", "std"] }
dashmap = "6"
ipnet = "2"
regex = "1"
secrecy = "0.8"
serde = { version = "1", features = ["derive"] }
serde_json = "1"
serde_yaml = "0.9"
toml = "0.8"
woothee = "0.13"
