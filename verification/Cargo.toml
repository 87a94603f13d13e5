[package]
name = "vitruvius"
version = "0.2.0"
edition = "2021"
publish = false

[dependencies]
anyhow = "1"
bincode = "1.3"
blake3 = "1"
chacha20poly1305 = "0.10"
dialoguer = { version = "0.11", default-features = false }
dirs = "6"
futures-util = "0.3"
hex = "0.4"
libp2p = { version = "0.54", default-features = false, features = ["tokio", "tcp", "noise", "yamux", "mdns", "request-response", "cbor", "macros", "gossipsub", "ed25519"] }
notify = "6"
rand = "0.10"
rand_core = { version = "0.6", features = ["getrandom"] }
rayon = "1"
serde = { version = "1", features = ["derive"] }
serde_cbor = "0.11"
serde_json = "1"
tokio = { version = "1", features = ["full"] }
tokio-tungstenite = "0.24"
tracing = "0.1"
tracing-subscriber = "0.3"
x25519-dalek = { version = "2", features = ["static_secrets"] }
zeroize = { version = "1", features = ["derive"] }
