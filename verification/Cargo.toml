[package]
name = "secure_envelope"
version = "0.1.0"
edition = "2021"
publish = false

[dependencies]
darkbio-crypto = { version = "=0.20.0", features = ["cose", "stream", "rand", "argon2", "rsa"] }
chacha20poly1305 = "=0.11.0"

[dev-dependencies]
hex = "=0.4.3"
