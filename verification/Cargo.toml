[package]
name = "triad_client"
version = "0.1.0"
edition = "2021"
publish = false

[dependencies]
color-eyre = "0.6"
serde = { version = "1", features = ["derive"] }
serde_json = "1"
tokio = { version = "1", features = ["net", "io-util", "sync", "time", "rt"] }
tracing = "0.1"
