[package]
name = "whatsapp_usb_bridge"
version = "0.5.0"
edition = "2021"
publish = false

[dependencies]
regex = "1"
chrono = "0.4"
anyhow = "1"
clap = { version = "4", features = ["derive"] }
colored = "2"
crossbeam-channel = "0.5"
eframe = { version = "0.29", default-features = false, features = ["glow", "x11", "default_fonts"] }
egui = "0.29"
image = { version = "0.25", default-features = false, features = ["png"] }
ureq = { version = "2", default-features = false, features = ["json"] }
serde = { version = "1", features = ["derive"] }
