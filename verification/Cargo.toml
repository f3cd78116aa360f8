[package]
name = "virtdriver"
version = "0.1.0"
edition = "2021"
publish = false

[dependencies]
serialport = { version = "4", default-features = false }
uinput = { version = "0.1", default-features = false }
