[package]
name = "daily_bugle"
version = "0.1.0"
edition = "2021"
publish = false

[dependencies]
anyhow = "*"
chrono = "*"
chrono-tz = "*"
clap = { version = "*", features = ["derive"] }
directories = "*"
env_logger = "*"
flate2 = "*"
log = "*"
quick-xml = "*"
rand = "*"
reqwest = { version = "*", default-features = false }
scraper = "*"
serde = { version = "*", features = ["derive"] }
serde_json = "*"
tokio = { version = "*", features = ["rt-multi-thread", "macros", "fs", "io-util"] }
toml = "*"
url = "*"
