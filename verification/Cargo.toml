[package]
name = "app_core"
version = "0.1.0"
edition = "2021"
publish = false

[dependencies]
log = "0.4"
env_logger = "0.11"
winit = "0.30"
