[package]
name = "powersession"
version = "0.1.0"
edition = "2021"
publish = false

[dependencies]
reqwest = { version = "*", default-features = false }
tracing = "*"
tracing-subscriber = { version = "*", features = ["env-filter"] }
