[package]
name = "headshot"
version = "0.1.0"
edition = "2021"
publish = false

[dependencies]
lru = "=0.12.5"
image = { version = "=0.24.9", default-features = false, features = ["png", "jpeg", "bmp", "tiff", "webp"] }
crossbeam = "=0.8.5"
clap = { version = "=4.5.61", default-features = false, features = ["std", "derive", "help", "usage", "error-context"] }
opencv = "=0.94.4"
