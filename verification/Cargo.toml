[package]
name = "scene_builder"
version = "0.1.0"
edition = "2021"
publish = false

[dependencies]
pathfinder_geometry = "=0.5.1"
pathfinder_simd = "=0.5.6"
pathfinder_gpu = "=0.5.0"
pathfinder_ui = "=0.5.0"
pathfinder_resources = "=0.5.0"
winapi = "=0.2.8"
dwrite-sys = "=0.2.0"
kernel32-sys = "=0.2.2"
uuid-sys = "=0.1.3"
