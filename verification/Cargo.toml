[package]
name = "cv_disparity"
version = "0.1.0"
edition = "2021"
publish = false

[dependencies]
image = { version = "0.23", default-features = false }
serde = { version = "1", features = ["derive"] }
thiserror = "1"
