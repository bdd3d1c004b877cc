[package]
name = "amk"
version = "0.1.0"
edition = "2021"
publish = false

[dependencies]
anyhow = "1"
bytemuck = { version = "1", features = ["derive"] }
fern = { version = "0.6", features = ["colored"] }
log = "0.4"
raw-window-handle = "0.5"
vulkano = "0.32"
vulkano-shaders = "0.32"
vulkano-win = "0.32"
winit = "0.27"
