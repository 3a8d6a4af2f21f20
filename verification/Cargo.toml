[package]
name = "gossip"
version = "0.1.0"
edition = "2021"
publish = false

[dependencies]
bitcode = "0.6"
bs58 = "0.5"
crossbeam = "0.8"
ed25519-dalek = { version = "2", features = ["rand_core"] }
rand = "0.8"
smol = "2"
smol-timeout = "0.6"
