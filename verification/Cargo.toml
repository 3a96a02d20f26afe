[package]
name = "shed_power"
version = "0.1.0"
edition = "2021"
publish = false

[dependencies]
anyhow = "1"
cpal = "0.15"
hound = "3"
midir = "0.10"
rand = "0.8"
ringbuf = "0.3"
serde = { version = "1", features = ["derive"] }
serde_json = "1"
