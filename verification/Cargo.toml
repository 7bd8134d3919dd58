[package]
name = "awebpinator"
version = "0.1.0"
edition = "2021"
publish = false

[dependencies]
shlex = "*"
anyhow = "*"
relm4 = "*"
image = { version = "*", default-features = false, features = ["png", "jpeg", "webp", "bmp", "gif", "tiff"] }
rayon = "*"
serde = { version = "*", features = ["derive"] }
serde_json = "*"
tempfile = "*"
