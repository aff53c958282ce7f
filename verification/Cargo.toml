[package]
name = "jesterd20"
version = "0.1.0"
edition = "2021"
publish = false

[dependencies]
fastrand = "=2.5.0"
env_logger = "=0.11.11"
catppuccin-egui = "=5.7.0"
eframe = { version = "0.26", default-features = false, features = ["glow"] }
