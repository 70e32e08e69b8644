[package]
name = "gs_rs"
version = "0.1.0"
edition = "2021"
publish = false

[dependencies]
nalgebra = "0.30"
petgraph = "0.6"
kiss3d = "0.35"
