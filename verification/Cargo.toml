[package]
name = "plan"
version = "0.1.0"
edition = "2021"
publish = false

[dependencies]
binpack2d = "=1.0.1"
pathdiff = "=0.2.3"
twox-hash = "=2.1.5"
uuid = { version = "=1.29.0", features = ["v4", "serde"] }
serde = { version = "=1.0.229", features = ["derive"] }
serde_yaml = "=0.9.34"
walkdir = "=2.5.0"
memmap2 = "=0.9.12"
dirs = "=7.0.0"
imagesize = "=0.15.0"
image = { version = "=0.25.10", default-features = false, features = ["png", "jpeg", "gif", "webp"] }
egui = { version = "=0.36.2", features = ["serde"] }
eframe = { version = "=0.36.2", default-features = false, features = ["default_fonts", "glow", "x11", "wayland"] }
egui_extras = { version = "=0.36.2", default-features = false, features = ["image"] }
egui-phosphor = "=0.14.0"
egui-file-dialog = "=0.15.0"
video-rs = "=0.12.0"
