[package]
name = "beacon"
version = "0.1.0"
edition = "2021"
publish = false

[dependencies]
sha2 = "0.10"
serde = { version = "1", features = ["derive"] }
serde_json = "1"
hex = "0.4"
rand = "0.8"
secp256k1 = { version = "0.29", features = ["rand-std", "global-context"] }
bitcoin = { version = "0.32", features = ["rand-std"] }
bitcoincore-rpc = "0.19"
ark-ec = "0.5"
ark-ff = "0.5"
ark-serialize = "0.5"
ark-secp256k1 = "0.5"
