[package]
name = "aso_match"
version = "0.1.0"
edition = "2021"
publish = false

[dependencies]
distance = "*"
clap = { version = "*", features = ["derive"] }
csv = "*"
env_logger = "*"
log = "*"
