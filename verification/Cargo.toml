[package]
name = "planet_terrain"
version = "0.1.0"
edition = "2021"
publish = false

[dependencies]
noise = "0.7"
image = "0.23"
kiss3d = "0.31"
rapier3d-f64 = "0.8"
spin_sleep = "1"
