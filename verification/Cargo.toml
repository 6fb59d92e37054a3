[package]
name = "game_of_life"
version = "0.1.0"
edition = "2021"
publish = false

[dependencies]
ggez = { version = "0.8.1", default-features = false }
glam = { version = "*", features = ["mint"] }
quad-rand = "*"
