[package]
name = "block_textures"
version = "0.1.0"
edition = "2021"
publish = false

[dependencies]
cgmath = "0.18"
gl = "0.14"
glutin = "0.29"
image = { version = "0.24", default-features = false, features = ["png"] }
