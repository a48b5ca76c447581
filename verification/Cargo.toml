[package]
name = "event_ledger"
version = "0.1.0"
edition = "2021"
publish = false

[dependencies]
sha2 = "0.10"
hex = "0.4"
p256 = { version = "0.13", features = ["ecdsa"] }
rand = "0.8"
bellman = "0.14"
bls12_381 = "0.8"
ff = "0.13"
