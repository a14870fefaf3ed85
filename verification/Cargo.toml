[package]
name = "stray"
version = "0.1.0"
edition = "2021"
publish = false

[dependencies]
image = "=0.24.9"
wgpu = "=0.15.1"
winit = "=0.28.7"
pollster = "=0.3.0"
bytemuck = { version = "=1.25.2", features = ["derive"] }
