[package]
name = "gdterm"
version = "0.1.0"
edition = "2021"
publish = false

[dependencies]
alacritty_terminal = "=0.10.0"
gdnative = "=0.8.1"
mio-extras = "=2.0.6"
