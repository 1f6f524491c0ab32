[package]
name = "layout_interface"
version = "0.1.0"
edition = "2021"
publish = false

[dependencies]
calloop = "*"
env_logger = "*"
log = "*"
serde = { version = "1", features = ["derive"] }
serde_json = "1"
tokio = { version = "1", features = ["rt-multi-thread"] }
wayland-client = "*"
