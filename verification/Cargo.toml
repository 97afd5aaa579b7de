[package]
name = "ube_core"
version = "0.1.0"
edition = "2021"
publish = false

[dependencies]
fontdue = "0.9"
image = { version = "0.25", default-features = false, features = ["png", "jpeg", "gif", "bmp", "webp"] }
tiny-skia = "0.11"
serde = { version = "1", features = ["derive"] }
serde_json = "1"
svgtypes = "0.15"
taffy = "0.3"
wasm-bindgen = "0.2"
js-sys = "0.3"
wgpu = "0.19"
