[package]
name = "noise_handshake"
version = "0.1.0"
edition = "2021"
publish = false

[dependencies]
sha2 = "=0.10.9"
blake2 = "=0.10.6"
chacha20poly1305 = "=0.10.1"
aes-gcm = "=0.10.3"
x25519-dalek = "=2.0.1"
getrandom = "=0.2.17"
