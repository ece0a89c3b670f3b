[package]
name = "ng_bridge"
version = "0.1.0"
edition = "2021"
publish = false

[dependencies]
default-env = "0.1"
futures-util = "0.3"
serde = { version = "1", features = ["derive"] }
serde_json = "1"
tauri = { version = "2", default-features = false }
tokio-stream = "0.1"
tokio-tungstenite = "0.21"
url = "2"
