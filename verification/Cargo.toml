[package]
name = "kalba"
version = "0.1.0"
edition = "2021"
publish = false

[dependencies]
chrono = { version = "0.4", features = ["serde"] }
serde = { version = "1", features = ["derive"] }
toml = "0.8"
dirs = "5"
log = "0.4"
simple_logger = "4"
thiserror = "1"
reqwest = { version = "0.11", default-features = false, features = ["blocking", "rustls-tls"] }
