[package]
name = "k256_verify"
version = "0.1.0"
edition = "2021"
publish = false

[dependencies]
ecdsa = "0.8"
elliptic-curve = "0.6"
signature = "1.2"
sha2 = "0.9"
