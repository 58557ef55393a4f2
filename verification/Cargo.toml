[package]
name = "geotool"
version = "0.1.0"
edition = "2021"
publish = false

[dependencies]
argon2 = "0.5"
hhmmss = "0.1"
lazy_static = "1"
rand = "0.8"
regex = "1"
rustfft = "6"
