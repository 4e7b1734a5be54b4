[package]
name = "prologger"
version = "0.2.0"
edition = "2021"
publish = false

[dependencies]
log = "0.4"
serde = { version = "1", features = ["derive"] }
serde_json = "1"
tracing-core = "0.1"
tracing-subscriber = { version = "0.3", default-features = false, features = ["std"] }
reqwest = { version = "0.12", default-features = false, features = ["blocking"] }
syslog = "6"
