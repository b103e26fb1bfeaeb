[package]
name = "bw_adventures"
version = "0.1.0"
edition = "2021"
publish = false

[dependencies]
piston = "*"
piston_window = "*"
piston2d-graphics = "*"
piston2d-opengl_graphics = "*"
image = { version = "*", default-features = false, features = ["png"] }
nom = "*"
gtk = "*"
