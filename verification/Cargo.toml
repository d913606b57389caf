[package]
name = "rust_craft_2d"
version = "0.4.0"
edition = "2021"
publish = false

[dependencies]
noise = "0.8"
once_cell = "1"
serde = { version = "1", features = ["derive"] }
serde_json = "1"
