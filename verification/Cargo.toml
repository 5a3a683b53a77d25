[package]
name = "network_transfer"
version = "0.1.0"
edition = "2021"
publish = false

[dependencies]
anyhow = "1"
axum = { version = "0.6", features = ["headers"] }
axum-range = "0.2"
env_logger = "0.10"
hex = "0.4"
hexdump = "0.1"
indicatif = "0.17"
log = "0.4"
mdns-sd = "0.7"
network-interface = "1"
rand = "0.8"
serde = { version = "1", features = ["derive"] }
serde_json = "1"
thiserror = "1"
tokio = { version = "1", features = ["full"] }
ureq = { version = "2", features = ["json"] }
url = "2"
uuid = "1"
