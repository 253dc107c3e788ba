[package]
name = "fastshare"
version = "0.1.0"
edition = "2021"
publish = false

[dependencies]
aes-gcm = "0.10"
anyhow = "1"
base64 = "0.22"
bincode = "1"
clap = { version = "4", features = ["derive"] }
indicatif = "0.17"
local-ip-address = "0.6"
rand = "0.8"
reqwest = "0.12"
serde = { version = "1", features = ["derive"] }
tokio = { version = "1", features = ["full"] }
uuid = { version = "1", features = ["v4"] }
