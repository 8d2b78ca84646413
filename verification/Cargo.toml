[package]
name = "baltia"
version = "0.1.0"
edition = "2021"
publish = false

[dependencies]
rand = "0.8"
noise = { version = "0.8", default-features = false }
rayon = "1"
crossbeam = "0.8"
gnuplot = "0.0"
sdl2 = { version = "0.35", features = ["ttf"] }
