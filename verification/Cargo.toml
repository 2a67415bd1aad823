[package]
name = "soapdav"
version = "0.1.0"
edition = "2021"
publish = false

[dependencies]
percent-encoding = "2"
chrono = { version = "0.4", features = ["serde"] }
webdav-handler = "0.2"
hyper = { version = "0.14", features = ["full"] }
http = "0.2"
tokio = { version = "1", features = ["full"] }
futures = "0.3"
bytes = "1"
serde = { version = "1", features = ["derive"] }
serde_json = "1"
log = "0.4"
env_logger = "0.10"
thiserror = "1"
async-trait = "0.1"
reqwest = { version = "0.11", default-features = false }
scraper = "0.17"
diesel = { version = "2", features = ["sqlite", "r2d2", "chrono"] }
r2d2 = "0.8"
