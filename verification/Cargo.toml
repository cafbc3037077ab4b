[package]
name = "icco_contributor"
version = "0.1.0"
edition = "2021"
publish = false

[dependencies]
hex = "=0.4.3"
anchor-lang = { version = "0.24.2", features = ["init-if-needed"] }
anchor-spl = "0.24.2"
solana-program = "1"
spl-token-metadata = "0.0.1"
