[package]
name = "resolc"
version = "0.1.0"
edition = "2021"
publish = false

[dependencies]
semver = { version = "=1.0.28", features = ["serde"] }
serde = { version = "=1.0.229", features = ["derive"] }
serde_json = "=1.0.154"
dirs = "=5.0.1"
walkdir = "=2.5.0"
fs4 = "=0.8.4"
tokio = { version = "=1.54.1", features = ["rt-multi-thread"] }
reqwest = { version = "=0.12.28", default-features = false, features = ["rustls-tls"] }
