[package]
name = "client"
version = "0.1.0"
edition = "2021"
publish = false

[dependencies]
anyhow = "=1.0.104"
bytes = "=1.12.1"
cpal = "=0.15.3"
dirs = "=7.0.0"
futures-util = "=0.3.34"
opus = "=0.4.0"
rtp = "=0.11.0"
serde = { version = "=1.0.229", features = ["derive"] }
serde_json = "=1.0.154"
termion = "=4.0.6"
tokio = { version = "=1.54.1", features = ["full"] }
tokio-tungstenite = "=0.30.0"
uuid = { version = "=1.29.0", features = ["v4"] }
webrtc = "=0.11.0"
