[package]
name = "gothspace"
version = "0.1.0"
edition = "2021"
publish = false

[dependencies]
image = { version = "0.25", default-features = false, features = ["png", "jpeg", "gif"] }
nalgebra-glm = "*"
fastnoise-lite = "*"
minifb = "*"
mouse-rs = "*"
rand = "0.8"
rayon = "1"
tobj = "*"
