[package]
name = "dario"
version = "0.1.0"
edition = "2021"
publish = false

[dependencies]
serde = { version = "=1.0.229", features = ["derive"] }
serde_json = "=1.0.154"
tempfile = "=3.27.0"
tiny_http = "=0.12.0"
macroquad = { version = "=0.4.16", features = ["audio"] }
