[package]
name = "secret_token"
version = "0.1.0"
edition = "2021"
publish = false

[dependencies]
cosmwasm-std = "0.10"
serde = { version = "1", features = ["derive"] }
