[package]
name = "dfx"
version = "0.1.0"
edition = "2021"
publish = false

[dependencies]
anyhow = "1"
ic-types = "0.3"
serde = { version = "1", features = ["derive"] }
serde_json = "1"
slog = "2"
walkdir = "2"
