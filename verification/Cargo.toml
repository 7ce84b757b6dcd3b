[package]
name = "image_copy_capture"
version = "0.1.0"
edition = "2021"
publish = false

[dependencies]
anyhow = "*"
smithay = { version = "*", default-features = false, features = ["desktop", "renderer_gl", "wayland_frontend"] }
tracing = "*"
tracy-client = { version = "*", default-features = false }
