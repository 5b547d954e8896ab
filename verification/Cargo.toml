[package]
name = "lumen"
version = "0.1.0"
edition = "2021"
publish = false

[dependencies]
rand = "=0.10.3"
serde = { version = "=1.0.229", features = ["derive"] }
serde_json = "=1.0.154"
web-sys = { version = "=0.3.107", features = ["Window", "Storage"] }
webbrowser = "=1.2.6"
