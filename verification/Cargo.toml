[package]
name = "raytracer"
version = "0.1.0"
edition = "2021"
publish = false

[dependencies]
futures = "0.3"
glam = "0.29"
palette = "0.7"
rand = "0.8"
tokio = { version = "1", features = ["rt", "sync", "macros"] }
