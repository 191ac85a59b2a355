[package]
name = "wallet_program"
version = "0.1.0"
edition = "2021"
publish = false

[dependencies]
pinocchio = "=0.8.4"
pinocchio-pubkey = "=0.2.4"
