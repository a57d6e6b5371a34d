[package]
name = "glkit"
version = "0.1.0"
edition = "2021"
publish = false

[dependencies]
gl = "=0.14.0"
sdl2 = "=0.37.0"
half = "=2.7.1"
crossbeam-channel = "=0.5.17"
tobj = "4"
