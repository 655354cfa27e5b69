[package]
name = "voxel_core"
version = "0.1.0"
edition = "2021"
publish = false

[dependencies]
bytemuck = { version = "1", features = ["derive"] }
cgmath = "*"
serde = { version = "1", features = ["derive"] }
wgpu = { version = "*", default-features = false }
