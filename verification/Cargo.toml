[package]
name = "foodsim"
version = "0.1.0"
edition = "2021"
publish = false

[dependencies]
serde = { version = "*", features = ["derive"] }
vec1 = { version = "*", features = ["serde"] }
xflags = "*"
config = "*"
