[package]
name = "prognosis"
version = "0.1.0"
edition = "2021"
publish = false

[dependencies]
async-stream = "0.3"
async-trait = "0.1"
chrono = "0.4"
crossterm = "0.28"
encoding_rs = "0.8"
fastrand = "2"
futures = "0.3"
ratatui = "0.29"
regex = "1"
reqwest = { version = "0.12", default-features = false, features = ["json", "stream", "rustls-tls"] }
serde = { version = "1", features = ["derive"] }
serde_json = "1"
strsim = "0.11"
thiserror = "2"
tokio = { version = "1", features = ["full"] }
tokio-util = "0.7"
unicode-width = "0.2"
