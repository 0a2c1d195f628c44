[package]
name = "laminax_runtime"
version = "0.1.0"
edition = "2021"
publish = false

[dependencies]
numina = "*"
vulkano = "0.35"
