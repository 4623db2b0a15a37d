[package]
name = "trippy_ants"
version = "0.1.0"
edition = "2021"
publish = false

[dependencies]
serde = { version = "1", features = ["derive"] }
toml = "*"
rayon = "1"
chrono = "0.4"
image = { version = "0.25", default-features = false, features = ["png"] }
pixels = "0.15"
winit = "0.30"
