[package]
name = "parqview"
version = "0.1.0"
edition = "2021"
publish = false

[dependencies]
serde_json = "=1.0.154"
anyhow = "=1.0.104"
libc = "=0.2.191"
eframe = { version = "=0.31.1", default-features = false, features = ["default_fonts", "glow", "wayland", "x11"] }
egui_extras = { version = "=0.31.1", default-features = false }
rfd = { version = "=0.15.4", default-features = false, features = ["xdg-portal", "tokio"] }
