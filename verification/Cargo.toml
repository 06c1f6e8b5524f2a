[package]
name = "graphplay"
version = "0.1.0"
edition = "2021"
publish = false

[dependencies]
byteorder = "1"
glium = "0.32"
glutin = "0.29"
nalgebra = "0.32"
num = "0.4"
