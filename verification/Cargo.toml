[package]
name = "keymanager"
version = "0.1.0"
edition = "2021"
publish = false

[dependencies]
ed25519-dalek = "2"
failure = "0.1"
rand = "0.8"
serde = "1"
serde_bytes = "0.11"
serde_derive = "1"
tiny-keccak = { version = "2", features = ["kmac"] }
x25519-dalek = { version = "2", features = ["static_secrets"] }
