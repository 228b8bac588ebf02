[package]
name = "arcane_mesh"
version = "0.1.0"
edition = "2021"
publish = false

[dependencies]
blake3 = "1"
ed25519-dalek = { version = "2", features = ["rand_core"] }
chacha20poly1305 = "0.10"
argon2 = "0.5"
rand_core = { version = "0.6", features = ["getrandom"] }
serde = { version = "1", features = ["derive"] }
serde_json = "1"
thiserror = "2"
anyhow = "1"
clap = { version = "4", features = ["derive"] }
zeroize = "1"
base64 = "0.22"

[dev-dependencies]
tempfile = "3"
