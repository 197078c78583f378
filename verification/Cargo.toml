[package]
name = "chaos_game"
version = "0.1.0"
edition = "2021"

[dependencies]
rand = "0.8"
piston_window = "*"
piston = "*"
piston2d-graphics = "*"
