[package]
name = "hbbs"
version = "0.1.0"
edition = "2021"
publish = false

[dependencies]
sodiumoxide = "=0.2.7"
base64 = "=0.13.1"
chrono = "=0.4.45"
ipnetwork = "=0.20.0"
jsonwebtoken = "=8.3.0"
serde = { version = "1", features = ["derive"] }
serde_json = { version = "=1.0.154", features = ["preserve_order", "raw_value"] }
once_cell = "1"
local-ip-address = "0.5"
tokio = { version = "1", features = ["full"] }
tokio-tungstenite = "=0.17.2"
tungstenite = "=0.17.3"
tokio-util = { version = "0.7", features = ["codec"] }
futures-util = { version = "0.3", features = ["sink"] }
bytes = "1"
log = "0.4"
