[package]
name = "scooby"
version = "0.1.0"
edition = "2021"
publish = false

[dependencies]
ink = { version = "4", default-features = false, features = ["std"] }
secp256k1 = { version = "0.28", features = ["rand-std", "hashes-std"] }
