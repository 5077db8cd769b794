[package]
name = "mandelbrot"
version = "0.1.0"
edition = "2021"
publish = false

[dependencies]
minifb = "*"
image = { version = "*", default-features = false, features = ["png"] }
time = "*"
