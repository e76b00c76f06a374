[package]
name = "rokit"
version = "0.1.0"
edition = "2021"
publish = false

[dependencies]
anyhow = "1"
clap = { version = "4", features = ["derive"] }
console = "0.15"
futures = "0.3"
tokio = { version = "1", features = ["fs", "sync", "rt", "macros"] }
tracing = "0.1"
