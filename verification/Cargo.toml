[package]
name = "rack"
version = "0.1.0"
edition = "2021"
publish = false

[dependencies]
serde = { version = "1", features = ["derive"] }
serde_json = "1"
globset = "0.4"
chrono = "0.4"
toml = "0.8"
libc = "0.2"
