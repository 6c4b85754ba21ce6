[package]
name = "buddhabrot"
version = "0.1.0"
edition = "2021"
publish = false

[dependencies]
clap = { version = "4", features = ["derive"] }
exr = "1"
humantime = "2"
image = { version = "0.24", default-features = false, features = ["png"] }
indicatif = "0.17"
num_cpus = "1"
rand = "0.8"
