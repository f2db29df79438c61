[package]
name = "cube-amm"
version = "0.1.0"
edition = "2021"
publish = false

[dependencies]
anyhow = "1"
solana-sdk = { version = "2.2", default-features = false }
spl-associated-token-account = { version = "6", features = ["no-entrypoint"] }

[dev-dependencies]
spl-token = { version = "7", features = ["no-entrypoint"] }
