[package]
name = "fractal_flame"
version = "0.1.0"
edition = "2021"
publish = false

[dependencies]
rand = "0.8"
fixed = "1"
cordic = "0.1"
plotters = "0.3"
rayon = "1"
