[package]
name = "ners"
version = "0.1.0"
edition = "2021"
publish = false

[dependencies]
eframe = { version = "0.31", default-features = false, features = ["default_fonts", "glow", "x11"] }
egui = { version = "0.31", default-features = false }
log = "0.4"
rfd = { version = "0.15", default-features = false, features = ["xdg-portal", "tokio"] }
simplelog = "0.12"
tokio = { version = "1", features = ["rt", "rt-multi-thread"] }
