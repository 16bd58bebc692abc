[package]
name = "proof_env"
version = "0.1.0"
edition = "2021"
publish = false

[dependencies]
pest = "2"
