[package]
name = "rigid_rk"
version = "0.1.0"
edition = "2021"
publish = false

[dev-dependencies]
nalgebra = { version = "0.33", default-features = false, features = ["std"] }
