[package]
name = "pore_dft"
version = "0.1.0"
edition = "2021"
publish = false

[dependencies]
feos-core = "0.2"
ndarray = { version = "0.15", features = ["rayon"] }
ndarray-stats = "0.5"
quantity = "0.5"
