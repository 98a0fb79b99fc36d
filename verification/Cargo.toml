[package]
name = "pacnews"
version = "0.1.0"
edition = "2021"
publish = false

[dependencies]
alpm = "*"
alpm-utils = "*"
anyhow = "*"
reqwest = { version = "*", default-features = false }
scraper = "*"
tempfile = "*"
tokio = { version = "*", features = ["macros", "rt-multi-thread"] }
