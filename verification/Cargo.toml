[package]
name = "sculkr"
version = "0.1.3"
edition = "2021"
publish = false

[dependencies]
anyhow = "1"
clap = { version = "4", features = ["derive"] }
colored = "2"
dotenvy = "0.15"
log = "0.4"
minreq = { version = "2", features = ["https-rustls", "json-using-serde"] }
serde = { version = "1", features = ["derive"] }
serde_json = "1"
serde_with = "3"
simple_logger = "5"
thiserror = "2"
toml = "0.8"
