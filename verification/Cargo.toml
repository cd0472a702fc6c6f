[package]
name = "wallpaperd"
version = "0.1.0"
edition = "2021"
publish = false

[dependencies]
rand = "0.8"
clap = { version = "3", features = ["derive"] }
ctrlc = "3"
log = "0.4"
pretty_env_logger = "0.4"
