[package]
name = "lmpic_downloader"
version = "0.1.0"
edition = "2021"
publish = false

[dependencies]
lru = { version = "=0.18.5", default-features = false }
scraper = "=0.27.0"
pinyin = "=0.11.0"
reqwest = { version = "=0.13.5", default-features = false, features = ["blocking", "charset"] }
tokio = { version = "=1.53.2", features = ["rt-multi-thread", "macros", "sync", "fs", "io-util"] }
indicatif = "=0.18.6"
