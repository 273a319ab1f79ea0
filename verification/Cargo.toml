[package]
name = "hippofactory"
version = "0.1.0"
edition = "2021"
publish = false

[dependencies]
chrono = "=0.4.45"
glob = "=0.3.4"
mime_guess = "=2.0.5"
semver = "*"
serde = { version = "=1.0.229", features = ["derive"] }
sha2 = "=0.11.0"
toml = "*"
