[package]
name = "stake_o_matic"
version = "0.1.0"
edition = "2021"
publish = false

[dependencies]
log = "0.4"
solana-sdk = "=1.18.26"
spl-stake-pool = "=1.0.0"
