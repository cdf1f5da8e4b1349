[package]
name = "pawngfx"
version = "0.1.0"
edition = "2021"
publish = false

[dependencies]
image = { version = "0.25", default-features = false, features = ["png"] }
thiserror = "1"
winit = "0.29"
pixels = "*"
