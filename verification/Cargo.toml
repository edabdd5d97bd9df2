[package]
name = "cync"
version = "0.1.0"
edition = "2021"
publish = false

[dependencies]
aes-gcm = "0.10"
arboard = "3"
base64 = "0.22"
clap = { version = "4", features = ["derive", "env"] }
futures-channel = "0.3"
futures-util = { version = "0.3", features = ["sink"] }
http-body-util = "0.1"
hyper = { version = "1", features = ["http1", "server"] }
hyper-util = { version = "0.1", features = ["tokio"] }
local-ip-address = "0.6"
pbkdf2 = { version = "0.12", features = ["hmac"] }
rand = "0.8"
sha2 = "0.10"
tokio = { version = "1", features = ["full"] }
tokio-tungstenite = "0.21"
