[package]
name = "light"
version = "0.1.0"
edition = "2021"
publish = false

[dependencies]
rand = "0.8"
rayon = "1"
serde_json = "1"
image = { version = "0.25", default-features = false, features = ["png"] }
