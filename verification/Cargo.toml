[package]
name = "halkara"
version = "0.1.0"
edition = "2021"
publish = false

[dependencies]
ureq = "2"
rodio = "*"
pico-args = "*"
terminal_size = "*"
