[package]
name = "codegod"
version = "0.1.0"
edition = "2021"
publish = false

[dependencies]
shlex = "1"
flate2 = "1"
serde = { version = "1", features = ["derive"] }
toml = "0.5"
lazy_static = "1"
tokio = { version = "1", features = ["full"] }
reqwest = { version = "0.11", default-features = false, features = ["json", "rustls-tls"] }
serenity = { version = "0.10", default-features = false, features = ["builder", "cache", "client", "framework", "gateway", "http", "model", "standard_framework", "utils", "collector", "rustls_backend"] }
mongodb = { version = "1", default-features = false, features = ["tokio-runtime"] }
