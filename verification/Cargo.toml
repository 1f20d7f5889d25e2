[package]
name = "lenia"
version = "0.1.0"
edition = "2021"
publish = false

[dependencies]
rand = "0.8"
colorgrad = "0.7"
rayon = "1"
sdl2 = { version = "0.36", features = ["gfx", "ttf"] }
