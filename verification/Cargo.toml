[package]
name = "auto_backup"
version = "0.1.0"
edition = "2021"
publish = false

[dependencies]
chrono = "0.4"
dirs = "5"
serde = { version = "1", features = ["derive"] }
toml = "0.8"
walkdir = "2"
zip = { version = "0.6", default-features = false, features = ["deflate"] }
