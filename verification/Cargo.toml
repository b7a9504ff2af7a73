[package]
name = "evoxel"
version = "0.1.0"
edition = "2021"
publish = false

[dependencies]
ecoord = "=0.0.2-alpha.1"
nalgebra = "=0.34.2"
chrono = "=0.4.45"
