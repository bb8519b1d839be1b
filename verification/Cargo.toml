[package]
name = "ozone_api"
version = "0.1.0"
edition = "2021"
publish = false

[dependencies]
argon2 = { version = "=0.5.3", features = ["std"] }
sha2 = "=0.10.9"
base64 = "=0.22.1"
serde = { version = "=1.0.229", features = ["derive"] }
serde_json = "=1.0.154"
anyhow = "=1.0.104"
axum = { version = "=0.7.9", features = ["ws", "multipart"] }
tokio = { version = "=1.54.1", features = ["full"] }
sqlx = { version = "=0.7.4", default-features = false, features = ["sqlite", "runtime-tokio", "migrate"] }
futures-util = "=0.3.34"
tracing = "=0.1.44"
tracing-subscriber = { version = "=0.3.23", features = ["env-filter"] }
