[package]
name = "dns_sweep"
version = "0.1.0"
edition = "2021"
publish = false

[dependencies]
fasthash = "0.4"
hickory-resolver = "0.24"
async-std = { version = "1", features = ["attributes", "tokio1"] }
futures = "0.3"
