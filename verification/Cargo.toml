[package]
name = "engine_core"
version = "0.1.0"
edition = "2021"
publish = false

[dependencies]
nng = "=1.0.1"
serde = { version = "=1.0.229", features = ["derive", "rc"] }
uuid = "=1.29.0"
