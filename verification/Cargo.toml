[package]
name = "support_manifold"
version = "0.1.0"
edition = "2021"
publish = false

[dependencies]
approx = "=0.5.1"
nalgebra = "=0.35.0"
