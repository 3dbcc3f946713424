[package]
name = "sapient"
version = "0.1.0"
edition = "2021"
publish = false

[dependencies]
anyhow = "=1.0.104"
half = "=2.7.1"
tokio = { version = "=1.54.1", features = ["rt-multi-thread"] }
