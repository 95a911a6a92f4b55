[package]
name = "elio"
version = "0.1.0"
edition = "2021"
publish = false

[dependencies]
anyhow = "=1.0.104"
cfb = "*"
chrono = { version = "*", default-features = false, features = ["clock"] }
crossterm = "=0.29.0"
dirs = "=7.0.0"
serde = { version = "=1.0.229", features = ["derive"] }
toml = "=1.2.1"
zip = { version = "=9.2.2", default-features = false, features = ["deflate"] }
