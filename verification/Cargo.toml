[package]
name = "tekutonu"
version = "0.1.0"
edition = "2021"
publish = false

[dependencies]
ndarray = "=0.15.6"
cgmath = "=0.18.0"
png = "0.17"
