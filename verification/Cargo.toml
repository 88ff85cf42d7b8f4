[package]
name = "raytracing"
version = "0.1.0"
edition = "2021"
publish = false

[dependencies]
rand = "0.8"
crossbeam = "0.8"
rayon = "1"
image = "0.24"
chrono = "0.4"
indicatif = "0.17"
