[package]
name = "depth_map_processor"
version = "0.1.0"
edition = "2021"
publish = false

[dependencies]
clap = { version = "4", features = ["derive"] }
colorgrad = "0.7"
image = { version = "0.25", default-features = false, features = ["png", "jpeg", "tiff"] }
