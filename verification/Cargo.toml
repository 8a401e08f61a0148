[package]
name = "image_io"
version = "0.1.0"
edition = "2021"
publish = false

[dependencies]
image = "0.24"
libwebp = "*"
webp-animation = "*"
uuid = { version = "*", features = ["v4"] }
bytemuck = "*"
