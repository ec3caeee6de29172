[package]
name = "wick"
version = "0.1.0"
edition = "2021"
publish = false

[dependencies]
serde = { version = "=1.0.229", features = ["derive"] }
serde_json = "=1.0.154"
thiserror = "=1.0.69"
clap = { version = "=4.6.7", features = ["derive"] }
oci-distribution = { version = "=0.11.0", default-features = false, features = ["rustls-tls"] }
redis = { version = "=1.8.1", default-features = false }
