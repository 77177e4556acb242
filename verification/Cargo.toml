[package]
name = "matrix_kernels"
version = "0.1.0"
edition = "2021"
publish = false

[dependencies]
blas = "*"
napi = { version = "2", features = ["async"] }
napi-derive = "2"
tokio = { version = "1", features = ["rt"] }
wide = "*"
