[package]
name = "hypha"
version = "0.1.0"
edition = "2021"
publish = false

[dependencies]
rand = "0.9"
yrs = "*"
url = "2"
serde = { version = "1", features = ["derive"] }
serde_json = "1"
anyhow = "1"
thiserror = "*"
async-trait = "0.1"
tracing = "0.1"
tracing-subscriber = "0.3"
tokio = { version = "1", features = ["macros", "rt-multi-thread", "time", "sync"] }
libp2p = { version = "*", features = ["tokio", "gossipsub", "identify", "relay", "dcutr", "noise", "tcp", "yamux", "quic", "macros", "ed25519"] }
ed25519-dalek = { version = "2", features = ["rand_core"] }
rand_core = { version = "0.6", features = ["getrandom"] }
fjall = "*"
serialport = { version = "4", default-features = false }
tempfile = "3"
