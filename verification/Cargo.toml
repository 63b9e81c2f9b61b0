[package]
name = "net4"
version = "0.1.0"
edition = "2021"
publish = false

[dependencies]
ed25519-dalek = "=2.2.0"
sha2 = "=0.10.9"
rand = "=0.8.8"
hex = "=0.4.3"
sled = "0.34"
