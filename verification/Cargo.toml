[package]
name = "estrol"
version = "0.1.0"
edition = "2021"
publish = false

[dependencies]
byteorder-lite = "=0.1.0"
rect_packer = "=0.2.1"
ttf-parser = "=0.25.1"
fontdue = "=0.9.5"
flate2 = "=1.1.10"
futures = "=0.3.34"
wgpu = { version = "=30.0.1", default-features = false, features = ["wgsl"] }
image = { version = "*", default-features = false, features = ["png", "jpeg", "gif", "bmp", "webp", "tga"] }
