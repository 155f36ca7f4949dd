[package]
name = "photo_filters"
version = "0.1.0"
edition = "2021"
publish = false

[dependencies]
image = "0.21"
num-complex = "0.4"
rand = "0.8"
