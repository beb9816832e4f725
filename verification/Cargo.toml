[package]
name = "entry_tracker"
version = "0.1.0"
edition = "2021"
publish = false

[dependencies]
chrono = "*"
mongodb = "*"
actix-web = "*"
serde = { version = "*", features = ["derive"] }
futures = "*"
anyhow = "*"
log = "*"
env_logger = "*"
