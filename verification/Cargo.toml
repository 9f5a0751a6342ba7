[package]
name = "nest"
version = "0.1.0"
edition = "2021"
publish = false

[dependencies]
argon2 = { version = "=0.5.3", features = ["std"] }
axum = { version = "=0.7.9", features = ["multipart"] }
base64 = "=0.22.1"
dirs = "=5.0.1"
hmac = "=0.12.1"
keyring = "=3.6.3"
rand = "=0.8.8"
reqwest = { version = "=0.12.28", default-features = false, features = ["json", "multipart", "rustls-tls"] }
serde = { version = "=1.0.229", features = ["derive"] }
serde_json = "=1.0.154"
sha2 = "=0.10.9"
sqlx = { version = "=0.7.4", default-features = false, features = ["runtime-tokio", "sqlite", "migrate", "macros"] }
sysinfo = "=0.30.13"
thiserror = "=1.0.69"
time = { version = "=0.3.55", features = ["serde", "formatting", "parsing"] }
tokio = { version = "=1.54.1", features = ["full"] }
tokio-util = { version = "=0.7.20", features = ["io"] }
tower-http = { version = "=0.5.2", features = ["trace"] }
tracing = "=0.1.44"
tracing-subscriber = { version = "=0.3.23", features = ["env-filter"] }
uuid = { version = "=1.29.0", features = ["v4", "serde"] }
walkdir = "=2.5.0"
zip = { version = "=2.6.1", default-features = false, features = ["deflate"] }
