[package]
name = "sqsh"
version = "0.1.0"
edition = "2021"
publish = false

[dependencies]
image = { version = "=0.25.10", default-features = false, features = ["bmp", "dds", "exr", "ff", "gif", "hdr", "ico", "jpeg", "png", "pnm", "qoi", "tga", "tiff", "webp"] }
oxipng = { version = "=10.2.1", default-features = false }
zip = { version = "=8.6.0", default-features = false }
walkdir = "=2.5.0"
uuid = { version = "=1.27.0", features = ["v4"] }
serde = { version = "=1.0.229", features = ["derive"] }
toml = "=1.1.7"
