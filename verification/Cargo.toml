[package]
name = "krec"
version = "0.1.0"
edition = "2021"
publish = false

[dependencies]
bytes = "1"
prost = "0.13"
color-eyre = "0.6"
thiserror = "1"
tracing = "0.1"
pyo3 = "0.19"
