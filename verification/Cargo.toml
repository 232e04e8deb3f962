[package]
name = "quilting_webgpu"
version = "0.1.0"
edition = "2021"
publish = false

[dependencies]
bytemuck = "1"
half = "2"
futures-channel = "0.3"
wgpu = { version = "*", default-features = false }
