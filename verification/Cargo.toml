[package]
name = "gigaam_core"
version = "0.1.0"
edition = "2021"
publish = false

[dependencies]
jni = "*"
ndarray = "*"
once_cell = "*"
ort = { version = "=2.0.0-rc.13", default-features = false, features = ["load-dynamic", "ndarray", "nnapi", "xnnpack"] }
rustfft = "*"
