[package]
name = "draft_contest"
version = "0.1.0"
edition = "2021"
publish = false

[dependencies]
anchor-lang = "=1.2.1"
anchor-spl = "=1.2.1"
pyth-solana-receiver-sdk = "=2.0.0"
