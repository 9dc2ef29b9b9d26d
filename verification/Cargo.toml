[package]
name = "maze_raycaster"
version = "0.1.0"
edition = "2021"
publish = false

[dependencies]
image = { version = "0.25", default-features = false, features = ["png", "jpeg"] }
minifb = "0.27"
rodio = { version = "0.19", default-features = false, features = ["mp3"] }
sdl2 = "0.38"
