[package]
name = "lsend"
version = "0.1.0"
edition = "2021"
publish = false

[dependencies]
anyhow = "=1.0.104"
arboard = "=3.7.0"
axum = "=0.8.9"
axum-server = { version = "=0.7.3", features = ["tls-rustls"] }
base64 = "=0.22.1"
clap = { version = "=4.6.7", features = ["derive"] }
dirs = "=7.0.0"
futures-util = "=0.3.34"
hex = "=0.4.3"
if-addrs = "=0.15.0"
indicatif = "=0.18.6"
mime_guess = "=2.0.5"
rand = "=0.9.5"
rcgen = "=0.13.2"
reqwest = { version = "=0.12.28", features = ["json", "rustls-tls", "stream"] }
rustls = "=0.23.46"
serde = { version = "=1.0.229", features = ["derive"] }
serde_json = "=1.0.154"
sha2 = "=0.10.9"
socket2 = "=0.6.5"
sys-locale = "=0.3.2"
tokio = { version = "=1.54.1", features = ["full"] }
tracing = "=0.1.44"
tracing-subscriber = { version = "=0.3.23", features = ["env-filter"] }
uuid = { version = "=1.29.0", features = ["v4"] }
