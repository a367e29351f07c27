[package]
name = "blockchain_workshop"
version = "0.1.0"
edition = "2021"
publish = false

[dependencies]
blake2 = "0.9"
ed25519-dalek = "1"
hex = "0.4"
num = "0.4"
rand = "0.7"
