[package]
name = "station_catalog"
version = "0.1.0"
edition = "2021"
publish = false

[dependencies]
scraper = "*"
serde = { version = "1", features = ["derive"] }
serde_json = "1"
tokio = { version = "1", features = ["full"] }
hyper = { version = "0.14", features = ["full"] }
futures = "0.3"
mongodb = "2"
reqwest = { version = "0.11", default-features = false, features = ["rustls-tls", "json"] }
