[package]
name = "proximity_index"
version = "0.1.0"
edition = "2021"
publish = false

[dependencies]
axum = "=0.8.9"
kiddo = "=5.3.3"
serde = { version = "=1.0.229", features = ["derive"] }
serde_json = "=1.0.154"
tokio = { version = "=1.54.1", features = ["full"] }
tower-http = { version = "=0.7.1", features = ["cors"] }
