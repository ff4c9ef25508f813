[package]
name = "daily_stoic"
version = "0.1.0"
edition = "2021"
publish = false

[dependencies]
chrono = "*"
dotenv = "*"
reqwest = { version = "*", default-features = false, features = ["blocking"] }
serde_json = "*"
