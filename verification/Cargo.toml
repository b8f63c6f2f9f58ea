[package]
name = "pathtracer"
version = "0.1.0"
edition = "2021"
publish = false

[dependencies]
image = { version = "0.24", default-features = false, features = ["png"] }
indicatif = "0.17"
nalgebra = "0.32"
ndarray = "0.15"
rand = "0.8"
