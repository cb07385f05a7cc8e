[package]
name = "midi_router"
version = "0.1.0"
edition = "2021"
publish = false

[dependencies]
midir = "*"
log = "*"
env_logger = "*"
anyhow = "*"
serde = { version = "*", features = ["derive"] }
toml = "*"
