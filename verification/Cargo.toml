[package]
name = "notifier"
version = "0.1.0"
edition = "2021"
publish = false

[dependencies]
chrono = { version = "=0.4.45", features = ["serde"] }
serde = { version = "=1.0.229", features = ["derive"] }
serde_json = "=1.0.151"
tokio = { version = "=1.53.2", features = ["full"] }
axum = "=0.8.9"
async-nats = "=0.50.0"
mongodb = "=3.9.1"
futures = "=0.3.34"
log = "=0.4.34"
env_logger = "=0.11.11"
dotenvy = "=0.15.7"
axum-prometheus = "=0.10.1"
