[package]
name = "expiecustwm"
version = "0.0.0"
edition = "2021"
publish = false

[dependencies]
anyhow = "1"
bytemuck = "1"
env_logger = { version = "0.11", default-features = false }
image = { version = "0.25", default-features = false, features = ["png"] }
log = "0.4"
rhai = "1"
x11rb = "0.13"
