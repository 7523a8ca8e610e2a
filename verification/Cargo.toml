[package]
name = "qcash"
version = "0.1.0"
edition = "2021"
publish = false

[dependencies]
sha2 = "=0.10.9"
hmac = "=0.12.1"
pqc_kyber = "=0.7.1"
chacha20poly1305 = "=0.10.1"
bincode = "=1.3.3"
serde = { version = "=1.0.229", features = ["derive"] }
rand = "=0.8.8"
base64 = "*"
