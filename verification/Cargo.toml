[package]
name = "tokenitis"
version = "0.1.0"
edition = "2021"
publish = false

[dependencies]
borsh = { version = "1", features = ["derive"] }
solana-program = "2.3"
spl-associated-token-account = "7"
spl-token = "8"
