[package]
name = "priority_check"
version = "0.1.0"
edition = "2021"
publish = false

[dependencies]
clap = { version = "=4.6.7", features = ["derive"] }
solana-sdk = "=1.17.34"
