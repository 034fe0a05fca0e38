[package]
name = "rlc_model"
version = "0.1.0"
edition = "2021"
publish = false

[dependencies]
line-col = "0.2.1"
clap = { version = "4", features = ["derive"] }
env_logger = "0.11"
