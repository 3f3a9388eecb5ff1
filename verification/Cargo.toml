[package]
name = "scholar_scrape"
version = "0.1.0"
edition = "2021"
publish = false

[dependencies]
clap = { version = "*", features = ["cargo"] }
reqwest = { version = "*", default-features = false, features = ["blocking", "rustls-tls"] }
rust_xlsxwriter = "*"
scraper = "*"

[dev-dependencies]
urlencoding = "*"
