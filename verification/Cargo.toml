[package]
name = "key_mapper"
version = "0.1.0"
edition = "2021"
publish = false

[dependencies]
anyhow = "*"
crossbeam-channel = "*"
crossterm = "*"
evdev = "*"
parking_lot = "*"
signal-hook = "*"
