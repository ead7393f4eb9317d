[package]
name = "my_secrets"
version = "0.1.0"
edition = "2021"
publish = false

[dependencies]
eframe = { version = "0.31.1", default-features = false, features = ["glow", "default_fonts", "x11"] }
egui = "0.31.1"
rfd = "0.15.4"
security-framework = "=3.7.0"
serde = { version = "=1.0.229", features = ["derive"] }
serde_json = "=1.0.154"
