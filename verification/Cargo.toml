[package]
name = "workpool"
version = "0.1.0"
edition = "2021"

[dependencies]
mime_guess = "2"
log = "0.4"
env_logger = "0.11"
