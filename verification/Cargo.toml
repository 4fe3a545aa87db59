[package]
name = "rust_im"
version = "0.1.0"
edition = "2021"
publish = false

[dependencies]
json = "0.12"
fltk = "1"
fltk-theme = "*"
