[package]
name = "dlmm_swap"
version = "0.1.0"
edition = "2021"
publish = false

[dependencies]
anchor-lang = "=1.2.1"
anchor-spl = { version = "=1.2.1", default-features = false, features = ["associated_token", "token", "solana-v3"] }
anyhow = "=1.0.104"
bincode = "=1.3.3"
solana-compute-budget-interface = { version = "3", features = ["borsh"] }
spl-associated-token-account = "=8.0.0"
