[package]
name = "noteworm"
version = "0.1.0"
edition = "2021"
publish = false

[dependencies]
sha2 = "*"
hex = "*"
chrono = "*"
log = "*"
env_logger = "*"
thiserror = "*"
clap = { version = "*", features = ["derive"] }
