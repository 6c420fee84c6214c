[package]
name = "nexlink_lib"
version = "0.1.0"
edition = "2021"
publish = false

[dependencies]
hkdf = "=0.12.4"
sha2 = "=0.10.9"
hex = "=0.4.3"
rand = "=0.8.8"
serde = { version = "=1.0.229", features = ["derive"] }
serde_json = "=1.0.154"
anyhow = "=1.0.104"
tokio = { version = "=1.54.1", features = ["full"] }
tokio-util = { version = "=0.7.20", features = ["compat"] }
tracing = "=0.1.44"
tracing-subscriber = { version = "=0.3.23", features = ["env-filter"] }
clap = { version = "=4.6.7", features = ["derive"] }
chrono = "=0.4.45"
md5 = "=0.7.0"
axum = "=0.7.9"
dashmap = "=6.2.1"
libp2p = { version = "=0.54.1", features = ["tokio", "tcp", "quic", "noise", "yamux", "relay", "identify", "rendezvous", "ping", "autonat", "macros", "ed25519"] }
libp2p-stream = "0.2.0-alpha"
