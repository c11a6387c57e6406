[package]
name = "render_core"
version = "0.1.0"
edition = "2021"
publish = false

[dependencies]
image = { version = "*", default-features = false, features = ["png"] }
thiserror = "*"
three-d-asset = { version = "*", default-features = false }
