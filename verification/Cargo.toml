[package]
name = "multisig_rs"
version = "0.1.0"
edition = "2021"
publish = false

[dependencies]
secp256k1 = { version = "*", features = ["rand"] }
rand = "*"
sha2 = "*"
hex = "*"
