[package]
name = "heatrs"
version = "0.1.0"
edition = "2021"
publish = false

[dependencies]
bytemuck = { version = "1", features = ["derive", "extern_crate_alloc"] }
futures-intrusive = "0.5"
numpy = "0.19"
pollster = "0.3"
pyo3 = { version = "0.19", features = ["extension-module"] }
wgpu = "0.17"
