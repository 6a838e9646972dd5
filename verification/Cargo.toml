[package]
name = "fusion_swap"
version = "0.1.0"
edition = "2021"
publish = false

[dependencies]
anchor-lang = { version = "=1.2.1", features = ["init-if-needed"] }
anchor-spl = "=1.2.1"
muldiv = "=1.0.1"
solana-sha256-hasher = { version = "=3.1.0", features = ["sha2"] }
soroban-sdk = "=29.0.1"
