[package]
name = "buat"
version = "0.1.0"
edition = "2021"
publish = false

[dependencies]
gl = "*"
glfw = "*"
image = { version = "*", default-features = false, features = ["png", "jpeg"] }
log = "*"
log4rs = "*"
mini-redis = "*"
nalgebra-glm = "*"
rand = "*"
regex = "*"
tobj = "*"
tokio = { version = "*", features = ["full"] }
