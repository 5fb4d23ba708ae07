[package]
name = "keiko"
version = "0.1.0"
edition = "2021"
publish = false

[dependencies]
frame-support = "=49.0.0"
serde = { version = "=1.0.229", features = ["derive"] }
serde_json = "=1.0.154"
