[package]
name = "edex_de"
version = "0.1.0"
edition = "2021"
publish = false

[dependencies]
fuzzy-matcher = "=0.3.7"
mime_guess = "2"
walkdir = "2"
serde = { version = "=1.0.229", features = ["derive"] }
serde_json = "=1.0.154"
toml = "1.1"
anyhow = "=1.0.104"
dirs = "=7.0.0"
chrono = "=0.4.45"
