[package]
name = "ovl_staking"
version = "0.1.0"
edition = "2021"
publish = false

[dependencies]
concordium-std = "11"
concordium-cis2 = "7"
strum = { version = "0.24", features = ["derive"] }
