[package]
name = "game_of_life"
version = "0.1.0"
edition = "2021"

[dependencies]
clap = { version = "4", features = ["derive"] }
macroquad = "0.4"
