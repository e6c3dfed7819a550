[package]
name = "wgpu_renderer"
version = "0.1.0"
edition = "2021"
publish = false

[dependencies]
bytemuck = { version = "=1.25.2", features = ["derive"] }
glam = { version = "=0.34.2", features = ["bytemuck"] }
naga_oil = "=0.22.0"
pollster = "=1.0.1"
raw-window-handle = "=0.6.2"
rustc-hash = "=2.1.3"
slotmap = "=1.1.1"
wgpu = { version = "=29.0.4", features = ["naga-ir"] }
