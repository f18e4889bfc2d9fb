[package]
name = "edulinker_core"
version = "0.1.0"
edition = "2021"
publish = false

[dependencies]
sha2 = "*"
base64 = "*"
hex = "*"
uuid = { version = "*", features = ["v4"] }
chrono = "*"
serde = { version = "*", features = ["derive"] }
serde_json = "*"
tokio = { version = "*", features = ["full"] }
axum = "*"
tower-http = { version = "*", features = ["cors"] }
tokio-util = "*"
tokio-stream = "*"
async-stream = "*"
futures = "*"
rusqlite = { version = "*", features = ["bundled"] }
local-ip-address = "*"
mac_address = "*"
hostname = "*"
