[package]
name = "crl_registry"
version = "0.1.0"
edition = "2021"
publish = false

[dependencies]
soroban-sdk = { version = "*", features = ["testutils"] }

[dev-dependencies]
sha2 = "*"
