[package]
name = "rustical"
version = "0.1.0"
edition = "2021"
publish = false

[dependencies]
unicode-width = "*"
crossterm = "*"
regex = "*"
anyhow = "*"
