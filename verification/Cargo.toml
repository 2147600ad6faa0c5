[package]
name = "temp_panel"
version = "0.1.0"
edition = "2021"
publish = false

[dependencies]
tui = { version = "*", default-features = false }
nvml-wrapper = "*"
psutil = "*"
num-rational = "*"
