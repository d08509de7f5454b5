[package]
name = "appshell"
version = "0.1.0"
edition = "2021"
publish = false

[dependencies]
chrono = "=0.4.45"
ciborium = "=0.2.2"
clap = { version = "=4.3.24", features = ["derive"] }
egui = { version = "=0.22.0", features = ["persistence"] }
egui_demo_lib = { version = "=0.22.0", features = ["serde"] }
egui-winit = "=0.22.0"
lz4_flex = "=0.11.6"
notify = "=6.1.1"
pollster = "=0.3.0"
puffin = "=0.16.0"
puffin_egui = "=0.22.0"
serde = { version = "=1.0.229", features = ["derive"] }
serde_yaml = "=0.9.34"
winit = "=0.28.7"
