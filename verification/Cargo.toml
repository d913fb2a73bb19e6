[package]
name = "konsone"
version = "0.1.0"
edition = "2021"
publish = false

[dependencies]
clap = { version = "4", features = ["derive"] }
env_logger = "*"
log = "0.4"
rand = "0.8"
rdev = "0.5"
serde_bare = "0.5"
