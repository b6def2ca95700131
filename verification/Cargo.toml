[package]
name = "spicier"
version = "0.1.0"
edition = "2021"
publish = false

[dependencies]
faer = "=0.21.9"
nalgebra = "=0.35.0"
num-complex = "=0.4.6"
bytemuck = { version = "=1.25.2", features = ["derive"] }
wgpu = "=24.0.5"
pollster = "=1.0.1"
thiserror = "=1.0.69"
