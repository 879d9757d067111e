[package]
name = "hourly_forecast"
version = "0.1.0"
edition = "2021"
publish = false

[dependencies]
scraper = "*"
reqwest = { version = "*", features = ["blocking", "cookies"] }
serde = { version = "1", features = ["derive"] }
serde_derive = "1"
serde_json = "1"
