[package]
name = "webscrape"
version = "0.1.0"
edition = "2021"
publish = false

[dependencies]
serde_yaml = "0.9"
base64 = "0.13"
serde = { version = "1", features = ["derive"] }
serde_json = "1"
rayon = "1"
rand = "0.8"
tabled = "*"
headless_chrome = "*"
reqwest = { version = "0.12", default-features = false, features = ["blocking"] }
