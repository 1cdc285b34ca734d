[package]
name = "silico_calculator"
version = "0.1.0"
edition = "2021"
publish = false

[dependencies]
meval = "0.2"
eframe = { version = "0.29", default-features = false, features = ["default_fonts", "glow"] }
image = { version = "0.25", default-features = false, features = ["png"] }
