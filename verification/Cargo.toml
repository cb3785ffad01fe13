[package]
name = "messenger"
version = "0.1.0"
edition = "2021"
publish = false

[dependencies]
anyhow = "1"
async-trait = "0.1"
bincode = "=1.3.3"
crossterm = "=0.28.1"
dashmap = "=6.2.1"
dirs = "5"
env_logger = "0.11"
futures = "0.3"
hex = "=0.4.3"
igd-next = { version = "=0.16.2", features = ["aio_tokio"] }
local-ip-address = "0.6"
log = "0.4"
ml-dsa = { version = "=0.0.4", features = ["rand_core"] }
pkcs8 = { version = "=0.10.2", features = ["encryption", "std"] }
quinn = { version = "=0.11.12", default-features = false, features = ["runtime-tokio", "rustls-ring"] }
rand = "=0.8.8"
ratatui = "=0.29.0"
rcgen = { version = "=0.13.2", default-features = false, features = ["ring", "pem"] }
rustls = { version = "=0.23.46", default-features = false, features = ["ring", "std"] }
serde = { version = "1", features = ["derive"] }
serde_json = "1"
sha3 = "=0.10.9"
snow = "=0.9.6"
tokio = { version = "1", features = ["full"] }
tokio-util = { version = "=0.7.20", features = ["codec"] }
wtransport = "=0.6.1"
