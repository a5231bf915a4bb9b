[package]
name = "raspberry_pi_display"
version = "0.1.0"
edition = "2021"
publish = false

[dependencies]
color-eyre = "0.6"
crossterm = "*"
image = { version = "0.25", default-features = false, features = ["png"] }
ratatui = "*"
sysinfo = "*"
