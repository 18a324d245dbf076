[package]
name = "directscreen_core"
version = "0.1.0"
edition = "2021"
publish = false

[dependencies]
libc = "=0.2.191"
evdev = "=0.12.2"
ash = "0.38"
naga = { version = "*", features = ["wgsl-in", "spv-out"] }
