[package]
name = "boundless"
version = "0.1.0"
edition = "2021"
publish = false

[dependencies]
ggez = "0.5"
nalgebra = "0.18"
simdnoise = "3.1"
specs = "0.16"
specs-derive = "0.4"
