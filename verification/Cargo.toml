[package]
name = "moonshine_core"
version = "0.1.0"
edition = "2021"
publish = false

[dependencies]
smithay = { version = "=0.7.0", default-features = false, features = ["wayland_frontend", "desktop"] }
tracing = "=0.1.44"
