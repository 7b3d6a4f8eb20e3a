[package]
name = "orion_sdr_view"
version = "0.1.0"
edition = "2021"
publish = false

[dependencies]
orion-sdr = "=0.0.74"
num-complex = "=0.4.6"
hound = "=3.5.1"
serde = { version = "=1.0.229", features = ["derive"] }
serde_json = "=1.0.154"
serde_yaml = "=0.9.34"
clap = { version = "=4.6.7", features = ["derive"] }
egui = { version = "*", default-features = false }
