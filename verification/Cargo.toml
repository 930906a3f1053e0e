[package]
name = "monas-state-node"
version = "0.1.0"
edition = "2021"
publish = false

[dependencies]
p256 = { version = "=0.13.2", features = ["ecdsa"] }
sha2 = "=0.10.9"
base64 = "=0.22.1"
hex = "=0.4.3"
rand = "=0.9.5"
rand_core = { version = "=0.6.4", features = ["getrandom"] }
cid = "=0.11.3"
multihash-codetable = { version = "=0.2.2", features = ["sha2"] }
serde = { version = "=1.0.229", features = ["derive"] }
serde_json = "=1.0.154"
fs2 = "=0.4.3"
uuid = { version = "=1.29.0", features = ["v4"] }
