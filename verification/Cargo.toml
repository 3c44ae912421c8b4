[package]
name = "laundry_scraper"
version = "0.1.0"
edition = "2021"
publish = false

[dependencies]
base64 = "=0.22.1"
color-eyre = "=0.6.5"
rand = "=0.9.5"
refinery = { version = "=0.10.0", features = ["config", "rusqlite", "tokio-postgres"] }
reqwest = { version = "=0.12.28", default-features = false, features = ["gzip", "json", "rustls-tls"] }
serde = { version = "=1.0.229", features = ["derive"] }
sql-middleware = "=0.9.0"
tokio = { version = "=1.54.1", features = ["macros", "rt-multi-thread", "signal", "sync", "time"] }
tokio-util = { version = "=0.7.20", features = ["rt"] }
tracing = "=0.1.44"
tracing-subscriber = { version = "=0.3.23", features = ["env-filter"] }
uuid = { version = "=1.29.0", features = ["serde"] }
xxhash-rust = { version = "=0.8.19", features = ["xxh3"] }
