[package]
name = "chain_network"
version = "0.1.0"
edition = "2021"
publish = false

[dependencies]
derive_more = "0.99"
futures = "0.3"
parity-scale-codec = { version = "2", features = ["derive"] }
rand = "0.8"
