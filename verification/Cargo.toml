[package]
name = "bad_frpc_launcher"
version = "0.1.0"
edition = "2021"
publish = false

[dependencies]
toml = "=0.8.23"
serde = { version = "=1.0.229", features = ["derive"] }
egui = "=0.24.1"
eframe = { version = "=0.24.1", default-features = false, features = ["default_fonts", "glow", "x11"] }
