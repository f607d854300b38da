[package]
name = "audiomultiverse"
version = "0.1.0"
edition = "2021"
publish = false

[dependencies]
rand = "0.8"
bytes = "1"
serde = { version = "1", features = ["derive"] }
serde_json = "1"
tokio = { version = "1", features = ["rt-multi-thread", "macros", "sync", "time", "net"] }
axum = { version = "0.7", features = ["ws"] }
futures = "0.3"
parking_lot = "0.12"
socket2 = "0.5"
anyhow = "1"
tracing = "0.1"
tracing-subscriber = "0.3"
uuid = { version = "1", features = ["v4"] }
cpal = "0.15"
