[package]
name = "raytracing"
version = "0.1.0"
edition = "2021"
publish = false

[dependencies]
anyhow = "1"
nalgebra = "0.32"
pixels = "0.11"
rayon = "1"
time = "0.3"
winit = "0.28"
