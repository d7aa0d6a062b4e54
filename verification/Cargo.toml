[package]
name = "tty_atlas"
version = "0.1.0"
edition = "2021"
publish = false

[dependencies]
psf2-font = "*"
vt100 = "*"
gl = "*"
glam = "*"
