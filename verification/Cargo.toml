[package]
name = "pihole_api"
version = "0.1.0"
edition = "2021"
publish = false

[dependencies]
rmp = "0.8"
rocket = "0.5"
serde_json = "1"
