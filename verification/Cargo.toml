[package]
name = "tileview"
version = "0.1.0"
edition = "2021"
publish = false

[dependencies]
euclid = { version = "=0.22.14", features = ["serde"] }
serde = { version = "=1.0.229", features = ["derive"] }
webrender = { version = "=0.70.0", features = ["capture", "replay"] }
webrender_api = "=0.70.0"
