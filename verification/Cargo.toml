[package]
name = "shadow_lend"
version = "0.1.0"
edition = "2021"
publish = false

[dependencies]
anchor-lang = { version = "=1.2.2", features = ["init-if-needed"] }
anchor-spl = { version = "=1.2.2", default-features = false, features = ["associated_token", "mint", "solana-v3", "token"] }
pyth-solana-receiver-sdk = "=2.0.0"
