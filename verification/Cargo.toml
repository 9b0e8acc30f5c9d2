[package]
name = "polars_metal"
version = "0.1.0"
edition = "2021"
publish = false

[dependencies]
arrow-buffer = "*"
block2 = "0.5"
libc = "0.2"
objc2 = "0.5"
objc2-metal = { version = "0.2", features = ["MTLBuffer", "MTLDevice", "MTLResource", "block2"] }
pyo3 = { version = "0.22", features = ["extension-module", "abi3-py39"] }
thiserror = "1"
