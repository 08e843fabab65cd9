[package]
name = "asset_pipeline"
version = "0.1.0"
edition = "2021"
publish = false

[dependencies]
base64 = "*"
image = "*"
serde_json = "*"
reqwest = { version = "*", default-features = false, features = ["blocking"] }
