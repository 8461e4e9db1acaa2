[package]
name = "ui_gtk"
version = "0.1.0"
edition = "2021"
publish = false

[dependencies]
gtk = "0.18"
tracing = "0.1"
