[package]
name = "lf-watermark"
version = "0.1.0"
edition = "2021"

[dependencies]
image = { version = "0.25", default-features = false, features = ["png"] }
rustdct = "0.7"
