[package]
name = "photo_pipeline"
version = "0.1.0"
edition = "2021"
publish = false

[dependencies]
image = "=0.25.10"
ratatui = "=0.30.2"
ratatui-image = { version = "=11.1.0", default-features = false, features = ["image-defaults", "crossterm"] }
rayon = "=1.12.0"
crossterm = "=0.29.0"
