[package]
name = "fishgame"
version = "0.1.0"
edition = "2021"
publish = false

[dependencies]
nanoserde = "=0.1.37"
macroquad = { version = "*", default-features = false }
macroquad-platformer = "*"
quad-net = "*"
