[package]
name = "dmg-01"
version = "0.1.0"
edition = "2021"
publish = false

[dependencies]
pixels = "0.12"
winit = "0.28"
