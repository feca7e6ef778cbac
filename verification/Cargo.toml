[package]
name = "comma"
version = "0.1.0"
edition = "2021"
publish = false

[dependencies]
bitcode = "0.6"
clap = { version = "4", features = ["derive", "env", "cargo"] }
env_logger = "0.11"
log = "0.4"
xdg = "2.5"
