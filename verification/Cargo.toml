[package]
name = "ckb-linked-list"
version = "0.1.0"
edition = "2021"
publish = false

[dependencies]
molecule = { version = "0.7.5", default-features = false }
ckb-hash = { version = "*", default-features = false, features = ["ckb-contract"] }
ckb-std = "*"
