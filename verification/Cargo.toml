[package]
name = "token_program"
version = "0.1.0"
edition = "2021"
publish = false

[dependencies]
pinocchio = "0.8"
pinocchio-pubkey = "*"
