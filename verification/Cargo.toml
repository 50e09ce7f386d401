[package]
name = "counter_program"
version = "0.1.0"
edition = "2021"
publish = false

[dependencies]
solana-program = "2"
