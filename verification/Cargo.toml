[package]
name = "mangafeed"
version = "0.1.0"
edition = "2021"
publish = false

[dependencies]
chrono = "*"
url = "*"
feed-rs = "*"
scraper = "*"
serde_json = "*"
toml = "*"
reqwest = { version = "*", default-features = false, features = ["blocking", "gzip", "brotli"] }
