[package]
name = "cj2k26"
version = "0.1.0"
edition = "2021"
publish = false

[dependencies]
aseprite = "*"
glam = "*"
log = "*"
env_logger = "*"
web-time = "*"
resid-rs = "*"
cpal = "*"
winit = "0.30"
pixels = "*"
