[package]
name = "moq"
version = "0.1.0"
edition = "2021"
publish = false

[dependencies]
anyhow = "1"
base64 = "=0.22.1"
bytes = "1"
clap = { version = "4", features = ["derive"] }
humantime = "2"
mp4-atom = "=0.10.1"
serde_json = "1"
thiserror = "2"
tokio = { version = "1", features = ["full"] }
tracing = "0.1"
url = "2"
web-async = "=0.1.5"
web-transport-trait = "=0.5.2"
