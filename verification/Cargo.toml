[package]
name = "staking_dapp"
version = "0.1.0"
edition = "2021"
publish = false

[dependencies]
anchor-lang = { version = "=0.30.1", features = ["init-if-needed"] }
anchor-spl = { version = "=0.30.1", default-features = false, features = ["token", "token_2022"] }
