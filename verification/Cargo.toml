[package]
name = "simple_wallet"
version = "0.1.0"
edition = "2021"
publish = false

[dependencies]
log = "=0.4.34"
rust-crypto = "=0.2.36"
sawtooth-sdk = "=0.5.2"
