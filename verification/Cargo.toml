[package]
name = "websocket_service"
version = "0.1.0"
edition = "2021"
publish = false

[dependencies]
base64 = "0.21"
bitcode = { version = "0.6", features = ["derive"] }
flexbuffers = "*"
futures = "0.3"
futures-channel = "0.3"
futures-util = "0.3"
serde = { version = "1", features = ["derive"] }
serde_json = "1"
tokio = { version = "1", features = ["rt", "net", "time", "sync"] }
tokio-tungstenite = "*"
tungstenite = "*"
