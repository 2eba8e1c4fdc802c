[package]
name = "tracker_sync"
version = "0.1.0"
edition = "2021"
publish = false

[dependencies]
serde = "1"
serde_json = "1"
serde_yaml = "0.9"
futures = "0.3"
tracing = "0.1"
tokio-tungstenite-wasm = "*"
