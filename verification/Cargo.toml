[package]
name = "orbital_assault"
version = "0.1.0"
edition = "2021"
publish = false

[dependencies]
ggez = { version = "0.9", default-features = false }
rand = "=0.8.5"
serde = { version = "1", features = ["derive"] }
serde_yaml = "0.9"
