[package]
name = "snui"
version = "0.1.0"
edition = "2021"
publish = false

[dependencies]
bytes = "=1.12.1"
crossbeam-channel = "=0.5.17"
eframe = { version = "=0.15.0", features = ["persistence"] }
egui = "=0.15.0"
image = "=0.23.14"
lru = "=0.7.8"
serde = { version = "=1.0.229", features = ["derive"] }
serde_derive = "=1.0.229"
toml = "=0.5.11"
