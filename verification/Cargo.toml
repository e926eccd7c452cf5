[package]
name = "http_server"
version = "0.1.0"
edition = "2021"
publish = false

[dependencies]
serde_json = "*"
regex = "*"
serde = { version = "*", features = ["derive"] }
log = "*"
env_logger = "*"
