[package]
name = "metriken_exposition"
version = "0.1.0"
edition = "2021"
publish = false

[dependencies]
histogram = { version = "*", features = ["serde"] }
serde = { version = "1", features = ["derive"] }
serde_json = "1"
rmp-serde = "1"
