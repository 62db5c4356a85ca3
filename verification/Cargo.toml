[package]
name = "subxt"
version = "0.1.0"
edition = "2021"
publish = false

[dependencies]
sp-core-hashing = "*"
futures = "*"

[dev-dependencies]
parity-scale-codec = "*"
