[package]
name = "cel_value"
version = "0.1.0"
edition = "2021"
publish = false

[dependencies]
chrono = { version = "0.4", default-features = false, features = ["std"] }
rust_decimal = "1"
serde_json = "1"
uuid = "1"
