[package]
name = "cx_cli"
version = "0.1.0"
edition = "2021"
publish = false

[dependencies]
anyhow = "=1.0.104"
chrono = "=0.4.45"
colored = "=2.2.0"
flate2 = "=1.1.10"
inquire = "=0.7.5"
percent-encoding = "=2.3.2"
reqwest = { version = "=0.12.28", default-features = false, features = ["rustls-tls"] }
serde = { version = "=1.0.229", features = ["derive"] }
serde_json = { version = "=1.0.154", features = ["preserve_order"] }
tabled = "=0.16.0"
toon-format = "=0.7.0"
