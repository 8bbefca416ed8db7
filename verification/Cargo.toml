[package]
name = "xsection"
version = "0.1.0"
edition = "2021"
publish = false

[dependencies]
glium = "0.32"
glutin = "0.29"
image = "0.24"
nalgebra = "0.32"
