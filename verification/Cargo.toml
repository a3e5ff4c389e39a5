[package]
name = "spatial"
version = "0.1.0"
edition = "2021"
publish = false

[dev-dependencies]
interpolation = "=0.3.0"
