[package]
name = "holiday_scraper"
version = "0.1.0"
edition = "2021"
publish = false

[dependencies]
scraper = "*"
reqwest = { version = "*", default-features = false }
tokio = { version = "*", features = ["rt-multi-thread", "macros", "time"] }
rusqlite = { version = "*", features = ["bundled"] }
log = "*"
env_logger = "*"
thiserror = "*"
