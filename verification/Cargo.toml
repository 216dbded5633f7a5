[package]
name = "gles_command"
version = "0.1.0"
edition = "2021"
publish = false

[dependencies]
arrayvec = "0.7"
glow = "0.10"
wgpu-types = "0.10"
