[package]
name = "rake"
version = "0.1.0"
edition = "2021"
publish = false

[dependencies]
rand = "0.9"
cursive = "0.21"
rodio = "0.19"
env_logger = "0.11"
log = "0.4"
chrono = "0.4"
