[package]
name = "deplorable"
version = "0.1.0"
edition = "2021"
publish = false

[dependencies]
bytes = "1"
clap = "2"
curl = "0.4"
httparse = "1"
reqwest = { version = "0.11", default-features = false, features = ["blocking", "json", "rustls-tls"] }
ring = "0.17"
serde = { version = "1", features = ["derive"] }
serde_yaml = "0.8"
