[package]
name = "fazuh_utils"
version = "0.1.0"
edition = "2021"
publish = false

[dependencies]
http = "1"
lettre = { version = "0.11", default-features = false, features = ["builder", "smtp-transport", "tokio1", "tokio1-rustls-tls"] }
validator = "*"
serde = { version = "1", features = ["derive"] }
tracing = "0.1"
tracing-appender = "0.2"
tracing-subscriber = { version = "0.3", features = ["env-filter"] }
dioxus = { version = "0.7", features = ["fullstack"] }
