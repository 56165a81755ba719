[package]
name = "vision_recognize"
version = "0.1.0"
edition = "2021"
publish = false

[dependencies]
base64 = "0.21"
image = "0.24"
serde_json = "1"
reqwest = { version = "0.12", default-features = false, features = ["blocking"] }
