[package]
name = "wallcraft"
version = "0.1.0"
edition = "2021"
publish = false

[dependencies]
rand = "0.8"
resvg = { version = "*", default-features = false }
tiny-skia = { version = "*", features = ["png-format"] }
wallpaper = "*"
image = { version = "*", default-features = false, features = ["png"] }
serde = { version = "1", features = ["derive"] }
serde_json = "1"
dirs = "*"
base64 = "*"
uuid = { version = "1", features = ["v4"] }
