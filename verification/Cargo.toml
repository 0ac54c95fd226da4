[package]
name = "collateral"
version = "0.1.0"
edition = "2021"
publish = false

[dependencies]
ethabi = "18"
hex = "0.4"
rand_chacha = "0.3"
