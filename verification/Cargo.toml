[package]
name = "falling_squares"
version = "0.1.0"
edition = "2021"
publish = false

[dependencies]
macroquad = "*"
miniquad = "*"
quad-storage = "*"
