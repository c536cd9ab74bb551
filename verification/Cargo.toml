[package]
name = "physics_engine"
version = "0.1.0"
edition = "2021"

[dependencies]
macroquad = "*"
