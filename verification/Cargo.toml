[package]
name = "unread_core"
version = "0.1.0"
edition = "2021"
publish = false

[dependencies]
base64 = "=0.23.1"
uuid = { version = "=1.27.0", features = ["v5"] }
mac_address = "=1.2.0"
hostname = "=0.4.2"
serde = { version = "=1.0.229", features = ["derive"] }
serde_json = "=1.0.151"
