[package]
name = "chord_finder"
version = "0.1.0"
edition = "2021"
publish = false

[dependencies]
eframe = { version = "0.26", default-features = false, features = ["default_fonts", "glow", "persistence"] }
egui = "0.26"
kord = { version = "=0.6.1", default-features = false }
log = "=0.4.34"
serde = { version = "=1.0.229", features = ["derive"] }
