[package]
name = "figbget"
version = "0.1.0"
edition = "2021"
publish = false

[dependencies]
chrono = "=0.4.45"
scraper = { version = "=0.18.1", features = ["deterministic"] }
ego-tree = "=0.6.3"
rust_xlsxwriter = "=0.56.0"
ureq = { version = "=2.12.1", features = ["native-tls"] }
native-tls = "=0.2.18"
eframe = { version = "=0.22.0", default-features = false, features = ["glow", "default_fonts"] }
egui_extras = { version = "=0.22.0", features = ["datepicker"] }
