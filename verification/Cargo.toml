[package]
name = "free_ollama"
version = "0.1.0"
edition = "2021"
publish = false

[dependencies]
chrono = { version = "=0.4.45", features = ["serde"] }
clap = "=4.6.7"
csv = "=1.4.0"
env_logger = "=0.10.2"
indicatif = "=0.17.11"
log = "=0.4.34"
native-tls = "=0.2.18"
reqwest = { version = "=0.11.27", features = ["json"] }
serde = { version = "=1.0.229", features = ["derive"] }
serde_json = "=1.0.154"
thiserror = "=1.0.69"
tokio = { version = "=1.54.1", features = ["full"] }
url = "=2.5.8"
