[package]
name = "gagaku_native"
version = "0.1.0"
edition = "2021"
publish = false

[dependencies]
anyhow = "1"
base64-simd = "*"
crc32fast = "1"
flate2 = "1"
image = { version = "0.25", default-features = false, features = ["bmp", "gif", "ico", "jpeg", "png", "pnm", "qoi", "tga", "tiff", "webp"] }
rquickjs = { version = "*", features = ["macro"] }
