[package]
name = "myssh"
version = "0.1.0"
edition = "2021"
publish = false

[dependencies]
aes-gcm = "*"
base64 = "*"
sha2 = "*"
rand = "*"
uuid = { version = "*", features = ["v4"] }
serde = { version = "*", features = ["derive"] }
serde_json = "*"
russh = "*"
russh-sftp = "*"
tokio = { version = "*", features = ["full"] }
tokio-socks = "*"
async-trait = "*"
dirs = "*"
anyhow = "*"
