[package]
name = "floppa2"
version = "0.1.0"
edition = "2021"
publish = false

[dependencies]
bytemuck = { version = "1", features = ["derive"] }
cgmath = "0.18"
image = { version = "0.24", default-features = false, features = ["png"] }
lazy_static = "1.4"
pollster = "0.3"
raw-window-handle = "0.5"
wgpu = "0.16"
