[package]
name = "zebra_crosslink"
version = "0.1.0"
edition = "2021"
publish = false

[dependencies]
blake3 = "=1.8.7"
ed25519-zebra = "=4.2.0"
rand = "=0.8.8"
serde = { version = "=1.0.229", features = ["derive"] }
thiserror = "=1.0.69"
hex = "=0.4.3"
sha2 = "=0.10.9"
equihash = "0.2"
