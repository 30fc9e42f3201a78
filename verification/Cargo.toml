[package]
name = "webnn_onnx_utils"
version = "0.1.0"
edition = "2021"
publish = false

[dependencies]
half = "2"
once_cell = "1"
serde = { version = "1", features = ["derive"] }
serde_json = "1"
thiserror = "1"
