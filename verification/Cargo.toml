[package]
name = "perlin_noise"
version = "0.1.0"
edition = "2021"
publish = false

[dependencies]
fastrand = "*"
image = { version = "*", default-features = false, features = ["png"] }
wasm-bindgen = "*"
