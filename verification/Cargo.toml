[package]
name = "prismae"
version = "0.1.0"
edition = "2021"
publish = false

[dependencies]
sdl3 = "*"
sdl3-ttf-sys = "*"
