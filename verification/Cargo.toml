[package]
name = "cringed"
version = "0.1.0"
edition = "2021"
publish = false

[dependencies]
axum = "0.6"
chrono = "0.4"
clap = { version = "4", features = ["cargo"] }
env_logger = "0.10"
futures = "0.3"
log = "0.4"
serde = { version = "1", features = ["derive"] }
serde_json = "1"
serialport = { version = "4", default-features = false }
socketioxide = "0.4"
tokio = { version = "1", features = ["full"] }
tokio_schedule = "0.3"
tower = "0.4"
tower-http = { version = "0.4", features = ["cors"] }
tracing = "0.1"
tracing-subscriber = "0.3"
