[package]
name = "yolo"
version = "0.1.0"
edition = "2021"
publish = false

[dependencies]
base64 = "*"
crossterm = "*"
textwrap = "*"
unicode-segmentation = "*"
unicode-width = "*"
zlib-rs = "*"
image = { version = "*", default-features = false, features = ["png", "gif", "webp"] }
