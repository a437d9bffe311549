[package]
name = "fj-kernel"
version = "0.1.0"
edition = "2021"
publish = false

[dependencies]
fj-math = "0.35.0"
parry3d-f64 = "0.17.6"
euclid = "0.22.14"
winit = "0.26.1"
wgpu = "0.15.1"
