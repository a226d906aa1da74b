[package]
name = "tilt_grid"
version = "0.1.0"
edition = "2021"
publish = false

[dependencies]
async-channel = "*"
edge-executor = "*"
futures = "*"
futures-timer = "*"
log = "*"
