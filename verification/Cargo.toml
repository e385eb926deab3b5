[package]
name = "world_wgpu"
version = "0.1.0"
edition = "2021"
publish = false

[dependencies]
image = { version = "0.25", default-features = false, features = ["jpeg", "png"] }
chrono = "0.4"
flate2 = "1"
csv = "1"
nalgebra = "0.33"
rand = "0.9"
smol = "2"
anyhow = "1"
