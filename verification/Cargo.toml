[package]
name = "shader-experiment"
version = "0.1.0"
edition = "2021"
publish = false

[dependencies]
anyhow = "1"
bytemuck = { version = "1", features = ["derive"] }
egui = "0.29"
egui-wgpu = "0.29"
egui-winit = { version = "0.29", default-features = false, features = ["wayland", "x11"] }
log = "0.4"
pollster = "0.3"
rfd = "0.15"
rustfft = "6"
symphonia = { version = "0.5", features = ["mp3", "aac", "isomp4"] }
wgpu = { version = "22", default-features = false, features = ["wgsl"] }
winit = { version = "0.30", default-features = false, features = ["rwh_06", "x11", "wayland", "wayland-dlopen"] }
