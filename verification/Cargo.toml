[package]
name = "open_now"
version = "0.1.0"
edition = "2021"
publish = false

[dependencies]
uuid = { version = "=1.29.0", features = ["v4"] }
serde = { version = "=1.0.229", features = ["derive"] }
serde_json = "=1.0.154"
dirs = "=7.0.0"
thiserror = "=2.0.21"
anyhow = "=1.0.104"
open = "=5.4.5"
parking_lot = "=0.13.0"
global-hotkey = "=0.9.0"
tray-icon = "=0.26.1"
eframe = { version = "=0.37.0", default-features = false, features = ["default_fonts", "glow", "x11", "persistence"] }
egui_extras = { version = "=0.37.0", default-features = false }
rfd = { version = "=0.17.2", default-features = false, features = ["gtk3"] }
gtk = "=0.18.2"
