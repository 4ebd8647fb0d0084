[package]
name = "sayless"
version = "0.1.0"
edition = "2021"
publish = false

[dependencies]
axum = "*"
axum-extra = { version = "*", features = ["typed-header"] }
base64 = "*"
bincode = "1"
blake3 = "*"
chrono = "*"
dotenvy = "*"
headers = "*"
log = "*"
mime = "*"
rand = "*"
serde = { version = "*", features = ["derive"] }
simple_logger = "*"
tokio = { version = "*", features = ["macros", "rt-multi-thread", "fs"] }
tokio-cron-scheduler = "*"
toml = "*"
