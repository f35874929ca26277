[package]
name = "palleon"
version = "0.1.0"
edition = "2021"
publish = false

[dependencies]
bson = "=2.15.0"
crossbeam-channel = "=0.5.17"
env_logger = "=0.10.2"
log = "=0.4.34"
serde = { version = "=1.0.229", features = ["derive"] }
toml = { version = "=0.5.11", features = ["preserve_order"] }
