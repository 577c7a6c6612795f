[package]
name = "gallerust"
version = "0.1.0"
edition = "2021"
publish = false

[dependencies]
image = { version = "0.25", default-features = false }
rfd = { version = "0.14", default-features = false, features = ["xdg-portal", "tokio"] }
winit = { version = "0.29", default-features = false, features = ["x11"] }
