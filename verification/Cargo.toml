[package]
name = "scalar_kalman"
version = "0.1.0"
edition = "2021"
publish = false

[dependencies]
rand = "0.9"
plotters = "0.3"
