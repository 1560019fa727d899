[package]
name = "qubepixel"
version = "0.1.0"
edition = "2021"
publish = false

[dependencies]
bytemuck = { version = "=1.25.2", features = ["derive"] }
chrono = { version = "=0.4.45", default-features = false, features = ["clock"] }
egui = "=0.31.1"
glam = { version = "=0.30.10", features = ["bytemuck"] }
image = { version = "=0.25.10", default-features = false, features = ["png"] }
log = "=0.4.35"
rfd = { version = "=0.17.2", default-features = false, features = ["xdg-portal"] }
serde = { version = "=1.0.229", features = ["derive"] }
serde_json = "=1.0.154"
wgpu = { version = "=29.0.4", default-features = false, features = ["wgsl"] }
winit = { version = "=0.30.13", default-features = false, features = ["rwh_06", "x11"] }
