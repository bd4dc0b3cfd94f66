[package]
name = "dekker_sync"
version = "0.1.0"
edition = "2021"
publish = false

[dependencies]
eframe = { version = "0.23", default-features = false, features = ["glow", "default_fonts", "x11"] }
