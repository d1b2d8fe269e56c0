[package]
name = "render_bundle"
version = "0.1.0"
edition = "2021"
publish = false

[dependencies]
wgpu-types = "*"
bincode = "1"
log = "0.4"
serde = { version = "1", features = ["derive"] }
