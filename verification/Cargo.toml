[package]
name = "config_server"
version = "0.1.0"
edition = "2021"
publish = false

[dependencies]
actix = "0.13"
actix-web = "4"
actix-web-lab = "0.20"
bytestring = "1"
chrono = { version = "0.4", features = ["serde"] }
futures = "0.3"
serde = { version = "1", features = ["derive"] }
serde_json = "1"
serde_yaml = "0.9"
slog = "2"
slog-async = "2"
slog-json = "2"
slog-term = "2"
tokio = { version = "1", features = ["full"] }
tokio-stream = "0.1"
