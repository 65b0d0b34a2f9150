[package]
name = "toolshed_runner"
version = "0.1.0"
edition = "2021"
publish = false

[dependencies]
serde = { version = "*", features = ["derive"] }
serde_yaml = "*"
log = "*"
env_logger = "*"
async-trait = "*"
