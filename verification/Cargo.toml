[package]
name = "image_cache"
version = "0.1.0"
edition = "2021"
publish = false

[dependencies]
base64 = "*"
axum = "*"
tokio = { version = "*", features = ["fs", "rt", "macros"] }
tower = { version = "*", features = ["util"] }
tower-http = { version = "*", features = ["fs"] }
