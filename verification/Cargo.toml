[package]
name = "shyper"
version = "0.1.0"
edition = "2021"
publish = false

[dependencies]
clap = { version = "4", features = ["derive"] }
env_logger = "*"
log = "*"
libc = "*"
serde = { version = "1", features = ["derive"] }
serde_json = "*"
signal-hook = "*"
