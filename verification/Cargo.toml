[package]
name = "solana_fib_cpi"
version = "0.1.0"
edition = "2021"
publish = false

[dependencies]
solana-account-info = "*"
solana-cpi = "*"
solana-instruction = "*"
solana-msg = "*"
solana-program-entrypoint = "*"
solana-program-error = "*"
solana-pubkey = { version = "*", features = ["curve25519"] }
