[package]
name = "espy"
version = "0.1.0"
edition = "2021"
publish = false

[dependencies]
gtk4 = "0.5"
x11 = { version = "2.21", features = ["xlib"] }
