[package]
name = "osc_cost"
version = "0.1.0"
edition = "2021"
publish = false

[dependencies]
chrono = "*"
serde = { version = "*", features = ["derive"] }
serde_json = "*"
clap = { version = "*", features = ["derive"] }
log = "*"
env_logger = "*"
comfy-table = "*"
outscale_api = "*"
