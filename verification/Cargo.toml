[package]
name = "tapciify"
version = "0.1.0"
edition = "2021"
publish = false

[dependencies]
image = { version = "=0.25.10", default-features = false, features = ["png", "jpeg", "gif", "webp", "bmp"] }
imageproc = { version = "=0.25.1", default-features = false }
colored = "=3.1.1"
clap = { version = "=4.6.7", features = ["derive"] }
crossterm = "=0.29.0"
indicatif = { version = "=0.18.6", features = ["rayon"] }
rayon = "=1.12.0"
glob = "=0.3.4"
