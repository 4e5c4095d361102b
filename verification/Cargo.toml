[package]
name = "near_halo2_verifier"
version = "0.1.0"
edition = "2021"
publish = false

[dependencies]
halo2curves = "=0.10.0"
near-sdk = { version = "=5.29.1", features = ["unit-testing"] }
snark-verifier = "=0.2.7"

[dev-dependencies]
rand = "=0.8.8"
