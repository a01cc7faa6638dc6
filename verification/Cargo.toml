[package]
name = "pathtracer"
version = "0.1.0"
edition = "2021"
publish = false

[dependencies]
rand = "0.8"
image = "0.24"
exr = "1"
chrono = "0.4"
indicatif = "0.17"
rayon = "1"
