[package]
name = "podium_analysis"
version = "0.1.0"
edition = "2021"
publish = false

[dependencies]
lodepng = "*"
chrono = "*"
plotters = "*"
