[package]
name = "mlinference"
version = "0.1.0"
edition = "2021"
publish = false

[dependencies]
tract-onnx = "*"
tract-tensorflow = "*"
serde = { version = "*", features = ["derive"] }
serde_json = "*"
base64 = "*"
