[package]
name = "dleq"
version = "0.1.0"
edition = "2021"
publish = false

[dependencies]
curve25519-dalek = "4"
secp256kfun = "*"
sha2 = "*"
rand_core = { version = "0.6", features = ["getrandom"] }
rand = "0.8"
hex = "*"
