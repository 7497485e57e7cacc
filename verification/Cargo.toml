[package]
name = "echobind"
version = "0.2.0"
edition = "2021"
publish = false

[dependencies]
clap = { version = "4", features = ["derive"] }
cpal = "0.15"
openh264 = "*"
opus = "0.3"
rayon = "1"
serde = { version = "1", features = ["derive"] }
serde_json = "1"
socket2 = "0.6"
tracing = "0.1"
tracing-subscriber = "0.3"
