[package]
name = "hlfiles"
version = "0.1.0"
edition = "2021"
publish = false

[dependencies]
image = "0.24"
imagequant = "4"
rgb = "0.8"
