[package]
name = "world_indicators"
version = "0.1.0"
edition = "2021"
publish = false

[dependencies]
serde_json = "*"
serde = { version = "*", features = ["derive"] }
actix-web = "*"
reqwest = { version = "*", default-features = false }
thiserror = "*"
log = "*"
env_logger = "*"
