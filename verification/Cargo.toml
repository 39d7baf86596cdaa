[package]
name = "raylib_plain"
version = "0.1.0"
edition = "2021"
publish = false

[dependencies]
bindgen = { version = "0.69", default-features = false, features = ["runtime"] }
cc = "1"
convert_case = "=0.6.0"
regex = "=1.13.1"
serde = { version = "=1.0.229", features = ["derive"] }
serde_json = "=1.0.154"
