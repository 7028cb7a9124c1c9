[package]
name = "pulse_compression"
version = "0.1.0"
edition = "2021"
publish = false

[dependencies]
plotters = "*"
