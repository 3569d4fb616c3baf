[package]
name = "desim"
version = "0.1.0"
edition = "2021"
publish = false

[dependencies]
serde = { version = "*", features = ["derive"] }
serde_json = { version = "*", features = ["float_roundtrip"] }
json5 = "*"
chrono = { version = "*", features = ["serde"] }
uuid = { version = "*", features = ["serde"] }
flate2 = "*"
tar = "*"
