[package]
name = "img_collage"
version = "0.1.0"
edition = "2021"
publish = false

[dependencies]
image = { version = "*", default-features = false, features = ["webp", "jpeg"] }
memmap2 = "*"
clap = { version = "*", features = ["derive"] }
tempfile = "*"
