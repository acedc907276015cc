[package]
name = "uhd_canvas"
version = "0.1.0"
edition = "2021"
publish = false

[dependencies]
image = { version = "0.24", default-features = false, features = ["jpeg"] }
kamadak-exif = "0.5"
chrono = { version = "0.4", default-features = false, features = ["std"] }
walkdir = "2"
indicatif = "0.17"
