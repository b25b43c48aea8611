[package]
name = "kyvyrn"
version = "0.1.0"
edition = "2021"
publish = false

[dependencies]
dirs = "*"
image = "0.25"
reqwest = { version = "0.12", features = ["blocking"] }
resvg = "*"
scraper = "*"
serde = { version = "1", features = ["derive"] }
serde_json = "1"
url = "2"
