[package]
name = "deep_forge"
version = "0.1.0"
edition = "2021"
publish = false

[dependencies]
anyhow = "=1.0.104"
axum = { version = "=0.8.9", features = ["multipart", "ws"] }
base64 = "=0.22.1"
image = "=0.25.10"
ort = { version = "=2.0.0-rc.15", default-features = false, features = ["std", "load-dynamic", "api-18", "cuda", "directml", "vitis"] }
serde = { version = "=1.0.229", features = ["derive"] }
serde_json = "=1.0.154"
tokio = { version = "=1.54.1", features = ["full"] }
tower-http = { version = "=0.6.11", features = ["cors"] }
tracing = "=0.1.44"
tracing-subscriber = "=0.3.23"
uuid = { version = "=1.29.0", features = ["v4", "serde"] }
