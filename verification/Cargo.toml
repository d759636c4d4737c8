[package]
name = "ristretto_algebra"
version = "0.1.0"
edition = "2021"
publish = false

[dependencies]
curve25519-dalek = "3"
rand_core = { version = "0.5", features = ["getrandom"] }
sha2 = "0.9"
