[package]
name = "mesh_loader"
version = "0.1.0"
edition = "2021"
publish = false

[dependencies]
fermium = { version = "=22605.0.1", features = ["cargo_check"] }
gl33 = "=0.2.1"
image = { version = "=0.25.10", default-features = false, features = ["png", "jpeg"] }
nalgebra-glm = "=0.21.0"
