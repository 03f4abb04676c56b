[package]
name = "yumo_core"
version = "0.1.0"
edition = "2021"
publish = false

[dependencies]
regex = "=1.13.1"
regex-syntax = "=0.8.11"
arboard = "=3.7.0"
keyring = { version = "=3.6.3", default-features = false, features = ["async-secret-service", "tokio", "crypto-rust"] }
serde = { version = "=1.0.229", features = ["derive"] }
serde_json = "=1.0.154"
serde_yaml = "=0.9.34"
rusqlite = { version = "=0.31.0", features = ["bundled"] }
chrono = "=0.4.45"
csv = "=1.4.0"
dirs = "=5.0.1"
hound = "=3.5.1"
uuid = { version = "=1.29.0", features = ["v4"] }
log = "=0.4.35"
tokio = { version = "=1.54.1", features = ["rt", "rt-multi-thread", "time", "process", "io-util", "macros"] }
image = { version = "=0.25.10", default-features = false, features = ["png", "gif", "jpeg"] }
zip = { version = "=9.2.2", default-features = false, features = ["deflate"] }
