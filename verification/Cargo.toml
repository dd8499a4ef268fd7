[package]
name = "wmjtyd_signer"
version = "0.1.0"
edition = "2021"
publish = false

[dependencies]
serde = { version = "1", features = ["derive"] }
serde_json = "1"
serde_yaml = "0.8"
anyhow = "1"
arcstr = "1"
async-channel = "1"
crossbeam-channel = "0.5"
tokio = { version = "1", features = ["full"] }
tokio-util = { version = "0.7", features = ["io"] }
axum = { version = "0.5", features = ["ws", "headers"] }
headers = "0.3"
tower-http = { version = "0.3", features = ["fs", "trace"] }
tracing = "0.1"
tracing-subscriber = "0.3"
notify = "5"
clap = "2"
rand = "0.8"
yata = "0.6"
crypto-message = "*"
wmjtyd-libstock = "*"
