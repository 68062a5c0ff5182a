[package]
name = "clockery"
version = "0.1.0"
edition = "2021"
publish = false

[dependencies]
chrono = "0.4"
chrono-tz = "*"
rand = "0.8"
slicestring = "*"
serde_json = "1"
clap = { version = "4", features = ["derive"] }
sdl2 = { version = "*", features = ["ttf"] }
