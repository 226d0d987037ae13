[package]
name = "idk"
version = "0.1.0"
edition = "2021"
publish = false

[dependencies]
egui = "=0.19.0"
egui_wgpu_backend = "=0.20.0"
egui_winit_platform = "=0.16.0"
env_logger = "=0.9.3"
pollster = "=0.2.5"
rfd = { version = "0.12", default-features = false, features = ["xdg-portal"] }
wgpu = "=0.14.2"
winit = "=0.27.5"
