[package]
name = "reqmeshval"
version = "0.1.0"
edition = "2021"
publish = false

[dependencies]
toml = "0.8"
serde = { version = "1", features = ["derive"] }
chrono = "0.4"
