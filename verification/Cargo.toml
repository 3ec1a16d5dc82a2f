[package]
name = "accounts_index"
version = "0.1.0"
edition = "2021"
publish = false

[dependencies]
solana-measure = "=2.3.13"
solana-sdk = "=2.3.1"
