[package]
name = "statecast"
version = "0.1.0"
edition = "2021"
publish = false

[dependencies]
crossbeam-channel = "=0.5.17"
triple_buffer = "=8.1.1"
midir = "=0.10.4"
miniquad = "=0.4.11"
fundsp = { version = "=0.20.0", default-features = false }
cpal = "0.15"
