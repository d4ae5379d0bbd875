[package]
name = "nix_bucks"
version = "0.1.0"
edition = "2021"
publish = false

[dependencies]
chrono = { version = "0.4", features = ["serde"] }
uuid = { version = "1", features = ["v4", "serde"] }
serde = { version = "1", features = ["derive"] }
serde_json = "1"
directories = "5"
eframe = { version = "0.22", default-features = false, features = ["glow"] }
egui_extras = { version = "0.22", default-features = false, features = ["datepicker"] }
internationalization = "*"
