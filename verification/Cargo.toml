[package]
name = "liquidity_pool"
version = "0.1.0"
edition = "2021"
publish = false

[dependencies]
cast = "*"
num-integer = "*"
soroban-sdk = "*"
