[package]
name = "nelisp_gtk"
version = "0.1.0"
edition = "2021"
publish = false

[dependencies]
gtk4 = "0.9"
pangocairo = "0.20"
