[package]
name = "rngrok"
version = "0.1.0"
edition = "2021"
publish = false

[dependencies]
anyhow = "1"
bytes = "1"
env_logger = "0.9"
log = "0.4"
rand = "0.8"
serde = { version = "1", features = ["derive"] }
serde_json = "1"
serde_yaml = "0.8"
tokio = { version = "1", features = ["full"] }
tokio-native-tls = "0.3"
tokio-rustls = "0.22"
tokio-util = "0.7"
