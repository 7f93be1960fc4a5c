[package]
name = "chat_relay"
version = "0.1.0"
edition = "2021"
publish = false

[dependencies]
actix = "=0.13.5"
actix-web = "=4.15.0"
actix-web-actors = "=4.3.1"
base64 = "=0.23.1"
chrono = "=0.4.45"
reqwest = { version = "=0.13.5", default-features = false }
rsa = "=0.9.10"
serde = { version = "=1.0.229", features = ["derive"] }
serde_json = "=1.0.151"
sha2 = { version = "=0.10.9", features = ["oid"] }
tokio = { version = "=1.53.2", features = ["sync"] }
