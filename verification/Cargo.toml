[package]
name = "limn_core"
version = "0.1.0"
edition = "2021"
publish = false

[dependencies]
rusttype = { version = "=0.9.3", features = ["gpu_cache"] }
glutin = "0.29"
piston2d-graphics = "*"
