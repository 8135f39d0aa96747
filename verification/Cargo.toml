[package]
name = "executionbackup"
version = "1.0.6"
edition = "2021"
publish = false

[dependencies]
axum = "0.6"
chrono = "0.4"
clap = "2"
futures = "0.3"
hex = "0.4"
jsonwebtoken = "8"
reqwest = { version = "0.11", default-features = false, features = ["json", "rustls-tls"] }
serde_json = "1"
tokio = { version = "1", features = ["full"] }
tracing = "0.1"
tracing-subscriber = "0.3"
