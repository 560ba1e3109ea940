[package]
name = "edbrute"
version = "0.1.0"
edition = "2021"
publish = false

[dependencies]
ed25519-dalek = "1"
rand = "0.7"
hex = "0.4"
anyhow = "1"
chrono = "0.4"
indicatif = "0.17"
num_cpus = "1"
