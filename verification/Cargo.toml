[package]
name = "pow_ledger"
version = "0.1.0"
edition = "2021"
publish = false

[dependencies]
bincode = "=1.3.3"
sled = "=0.34.7"
merkle-cbt = "=0.3.2"
rust-crypto = "=0.2.36"
bitcoincash-addr = "=0.5.2"
rand = "=0.8.8"
ring-compat = "=0.8.0"
ed25519 = "=2.2.3"
clap = "=4.6.7"

[dev-dependencies]
sha2 = "=0.10.9"
ripemd = "=0.1.3"
ed25519-dalek = "=2.2.0"
