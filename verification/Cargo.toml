[package]
name = "stream_hub"
version = "0.1.0"
edition = "2021"
publish = false

[dependencies]
axum = "0.7"
nanoid = "0.4"
redb = "2"
serde = { version = "1", features = ["derive"] }
serde_json = "1"
tokio = { version = "1", features = ["full"] }
tokio-stream = { version = "0.1", features = ["time"] }
