[package]
name = "openlifter_backend"
version = "0.1.0"
edition = "2021"
publish = false

[dependencies]
scrypt = "0.11"
argon2 = "0.5"
zeroize = "1"
rand = "0.8"
base64 = "0.22"
uuid = { version = "1", features = ["v4"] }
serde = { version = "1", features = ["derive"] }
serde_json = "1"
dashmap = "6"
aes-gcm = "0.10"
chrono = "0.4"
anyhow = "1"
thiserror = "2"
axum = { version = "0.8", features = ["ws"] }
tokio = { version = "1", features = ["full"] }
futures-util = "0.3"
tower-http = { version = "0.6", features = ["cors", "trace"] }
tracing = "0.1"
tracing-subscriber = { version = "0.3", features = ["env-filter"] }
config = { version = "0.14", default-features = false, features = ["toml"] }
