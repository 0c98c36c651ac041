[package]
name = "gigantomachia"
version = "0.1.0"
edition = "2021"
publish = false

[dependencies]
wgpu = "27.0.1"
winit = "0.30.13"
glam = "0.30"
bytemuck = { version = "1", features = ["derive"] }
pollster = "0.4"
ufbx = "*"
