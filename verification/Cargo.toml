[package]
name = "nexoia"
version = "0.1.0"
edition = "2021"
publish = false

[dependencies]
blake3 = "=1.8.7"
chacha20poly1305 = "=0.10.1"
ed25519-dalek = { version = "=2.2.0", features = ["rand_core"] }
x25519-dalek = { version = "=2.0.1", features = ["static_secrets"] }
ml-kem = { version = "=0.3.4", features = ["getrandom"] }
hkdf = "=0.12.4"
sha2 = "=0.10.9"
aes-gcm = "=0.10.3"
pbkdf2 = "=0.12.2"
rand = "=0.8.8"
hex = "=0.4.3"
uuid = { version = "=1.29.0", features = ["v4", "v5", "serde"] }
chrono = { version = "=0.4.45", features = ["serde"] }
serde = { version = "=1.0.229", features = ["derive"] }
serde_json = "=1.0.154"
zeroize = "=1.9.1"
