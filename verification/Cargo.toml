[package]
name = "virtual_keyboard"
version = "0.1.0"
edition = "2021"
publish = false

[dependencies]
smithay = { version = "*", default-features = false, features = ["wayland_frontend"] }
tracing = "*"
