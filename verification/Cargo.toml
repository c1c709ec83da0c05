[package]
name = "warp_keys"
version = "0.1.0"
edition = "2021"
publish = false

[dependencies]
aes = "0.8"
sha3 = "0.10"
getrandom = "0.2"
zeroize = "1"
dirs = "5"
