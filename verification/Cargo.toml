[package]
name = "latticefs"
version = "0.1.0"
edition = "2021"
publish = false

[dependencies]
blake3 = "=1.8.7"
hex = "=0.4.3"
uuid = { version = "=1.29.0", features = ["v7"] }
time = { version = "=0.3.55", features = ["parsing"] }
aes-gcm = "=0.10.3"
rand = "=0.8.8"
dirs = "=5.0.1"
sys-locale = "=0.3.2"
serde = { version = "=1.0.229", features = ["derive"] }
serde_json = "=1.0.154"
toml = "=0.8.23"
ed25519-dalek = { version = "=2.2.0", features = ["rand_core"] }
bs58 = "=0.5.1"
base64 = "=0.22.1"
argon2 = "0.5"
