[package]
name = "eyedropper"
version = "0.1.0"
edition = "2021"
publish = false

[dependencies]
gtk4 = "0.4"
libadwaita = "0.1"
log = "0.4"
once_cell = "1"
