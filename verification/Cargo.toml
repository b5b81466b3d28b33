[package]
name = "mmo"
version = "0.1.0"
edition = "2021"
publish = false

[dependencies]
cgmath = "0.18"
gl = "0.14"
glutin = "0.21"
time = "0.1"
