[package]
name = "bugsnag"
version = "0.1.0"
edition = "2021"
publish = false

[dependencies]
chrono = "*"
uuid = { version = "*", features = ["v4"] }
sys-info = "*"
reqwest = { version = "*", default-features = false, features = ["blocking"] }
serde = "*"
serde_json = "*"
