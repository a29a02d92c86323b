[package]
name = "reg16"
version = "0.1.0"
edition = "2021"
publish = false

[dependencies]
eframe = { version = "0.22", default-features = false, features = ["glow", "default_fonts"] }
