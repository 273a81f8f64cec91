[package]
name = "umber_app"
version = "0.1.0"
edition = "2021"
publish = false

[dependencies]
ab_glyph_rasterizer = "*"
directories = "*"
egui = "0.35"
egui-wgpu = "0.35"
log = "0.4"
png = "*"
pollster = "*"
serde = { version = "1", features = ["derive"] }
serde_json = "1"
skrifa = "*"
wgpu = "*"
winit = "0.30"
