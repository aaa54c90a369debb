[package]
name = "xmahjong"
version = "0.1.0"
edition = "2021"
publish = false

[dependencies]
serde = { version = "=1.0.229", features = ["derive"] }
serde_json = "=1.0.154"
rand = "=0.8.8"
sdl2 = { version = "=0.37.0", features = ["image", "ttf"] }
