[package]
name = "den"
version = "0.1.0"
edition = "2021"
publish = false

[dependencies]
unicode-segmentation = "=1.13.3"
unicode-width = "=0.1.12"
crossterm = "=0.29.0"
arboard = { version = "=3.7.0", default-features = false }
serde = { version = "=1.0.229", features = ["derive"] }
toml = "=1.1.8"
