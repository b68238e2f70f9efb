[package]
name = "screenlock_core"
version = "0.1.0"
edition = "2021"
publish = false

[dependencies]
rand = "*"
crossbeam-channel = "*"
users = "*"
xcb = "*"
xkb = "*"
screenruster-saver = "*"
