[package]
name = "node_viewer"
version = "0.1.0"
edition = "2021"
publish = false

[dependencies]
rand = "0.9"
eframe = { version = "0.31", default-features = false, features = ["default_fonts", "glow", "x11"] }
egui_extras = { version = "0.31", default-features = false }
