[package]
name = "mnist_viewer"
version = "0.1.0"
edition = "2021"
publish = false

[dependencies]
env_logger = "=0.10.2"
log = "=0.4.34"
pixels = "0.11"
winit = { version = "=0.29.15", features = ["rwh_05"] }
winit_input_helper = "=0.16.0"
