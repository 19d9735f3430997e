[package]
name = "osauth"
version = "0.1.0"
edition = "2021"
publish = false

[dependencies]
futures = "0.1"
log = "0.4"
reqwest = { version = "0.9", default-features = false }
serde = "1.0"
tokio = "0.1"
