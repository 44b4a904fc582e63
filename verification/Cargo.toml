[package]
name = "dioxuscut_rasterizer"
version = "0.1.0"
edition = "2021"
publish = false

[dependencies]
image = { version = "0.25", default-features = false, features = ["png"] }
lyon_tessellation = "1"
pollster = "0.4"
serde = { version = "1", features = ["derive"] }
tiny-skia = "0.11"
wgpu = "23"
