[package]
name = "warudo"
version = "0.1.0"
edition = "2021"
publish = false

[dependencies]
pathdiff = "=0.2.3"
clap = { version = "*", features = ["derive"] }
color-eyre = "*"
futures = "*"
serde_json = "*"
tokio = { version = "*", features = ["full"] }
tracing = "*"
tracing-subscriber = { version = "*", features = ["env-filter"] }
watchexec-events = { version = "=6.1.3", features = ["serde"] }
