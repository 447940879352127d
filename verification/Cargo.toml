[package]
name = "gneiss_rtk"
version = "0.1.0"
edition = "2021"
publish = false

[dependencies]
nalgebra = "*"
serde = { version = "1", features = ["derive"] }
