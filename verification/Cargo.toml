[package]
name = "e2ee_back"
version = "0.1.0"
edition = "2021"
publish = false

[dependencies]
argon2 = "=0.6.0"
password-hash = "=0.6.1"
base64 = "=0.23.1"
jsonwebtoken = { version = "=11.1.0", features = ["rust_crypto"] }
rand = "=0.10.3"
uuid = { version = "=1.27.0", features = ["v4"] }
serde_json = "=1.0.151"
chrono = "=0.4.45"
dotenvy = "=0.15.7"
