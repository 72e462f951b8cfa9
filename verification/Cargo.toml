[package]
name = "docker_direct"
version = "0.1.0"
edition = "2021"
publish = false

[dependencies]
anyhow = "=1.0.104"
askama = "=0.12.1"
axum = "=0.7.9"
bollard = "=0.16.1"
clap = { version = "=4.6.7", features = ["derive"] }
color-eyre = "=0.6.5"
futures-util = "=0.3.34"
lazy_static = "=1.5.1"
serde = { version = "=1.0.229", features = ["derive"] }
serde_json = "=1.0.154"
tokio = { version = "=1.54.1", features = ["full"] }
tracing = "=0.1.44"
tracing-subscriber = "=0.3.23"
