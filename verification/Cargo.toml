[package]
name = "w4113"
version = "0.1.0"
edition = "2021"
publish = false

[dependencies]
anyhow = "1"
cpal = "0.15"
hidapi = "2"
lazy_static = "1"
log = "0.4"
midir = "0.9"
rodio = "0.17"
serde = { version = "1", features = ["derive"] }
serde_json = "1"
ts-rs = "7"
