[package]
name = "commodity"
version = "0.1.0"
edition = "2021"
publish = false

[dependencies]
rust_decimal = "*"
iso4217 = "*"
serde = { version = "*", features = ["derive"] }
serde_json = "*"
chrono = { version = "*", features = ["serde"] }
