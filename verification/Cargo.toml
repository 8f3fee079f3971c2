[package]
name = "chant"
version = "0.1.0"
edition = "2021"
publish = false

[dependencies]
base64 = "0.22"
chrono = "0.4"
lofty = "*"
serde = { version = "1", features = ["derive"] }
serde_json = "1"
thiserror = "*"
walkdir = "2"
