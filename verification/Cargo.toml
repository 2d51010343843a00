[package]
name = "brown_noise"
version = "0.1.0"
edition = "2021"
publish = false

[dependencies]
rand = "*"
biquad = "*"
clap = { version = "*", features = ["derive"] }

[dev-dependencies]
hound = "*"
