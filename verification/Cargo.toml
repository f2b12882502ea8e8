[package]
name = "lastfinance"
version = "0.1.0"
edition = "2021"
publish = false

[dependencies]
rusqlite = { version = "*", features = ["bundled"] }
time = "*"
num-format = "*"
serde = { version = "*", features = ["derive"] }
serde_json = "*"
directories = "*"
chrono = "*"
