[package]
name = "gears"
version = "0.1.0"
edition = "2021"
publish = false

[dependencies]
cgmath = "0.18"
crossbeam = "0.8"
thiserror = "2"
