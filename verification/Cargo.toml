[package]
name = "dfs_manager"
version = "0.1.0"
edition = "2021"
publish = false

[dependencies]
hex = "=0.4.3"
near-contract-standards = "=5.29.1"
near-sdk = { version = "=5.29.1", features = ["non-contract-usage"] }
schemars = "=0.8.22"
