[package]
name = "rlt"
version = "0.5.1"
edition = "2021"
publish = false

[dependencies]
hdrhistogram = { version = "7.5", default-features = false }
chrono = { version = "0.4", default-features = false, features = ["clock", "std", "serde"] }
serde = { version = "1", features = ["derive"] }
serde_json = "1"
tokio = { version = "1", features = ["rt", "macros", "time", "sync"] }
tokio-util = "0.7"
futures = "0.3"
clap = { version = "4", features = ["derive"] }
anyhow = "1"
