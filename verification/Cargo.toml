[package]
name = "espeak_py"
version = "0.1.0"
edition = "2021"
publish = false

[dependencies]
espeak-sys = "*"
libc = "*"
parking_lot = "*"
pyo3 = { version = "*", features = ["extension-module"] }
