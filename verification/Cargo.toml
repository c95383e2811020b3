[package]
name = "lightspeed"
version = "0.1.0"
edition = "2021"
publish = false

[dependencies]
anyhow = "1"
env_logger = "0.11"
home = "0.5"
log = "0.4"
rand = "0.8"
rusqlite = "0.31"
sacn = "*"
serde = { version = "1", features = ["derive"] }
serde_json = "1"
