[package]
name = "moq-subscribe"
version = "0.1.0"
edition = "2021"
publish = false

[dependencies]
anyhow = "1"
bytes = "=1.12.1"
chrono = "=0.4.45"
clap = { version = "4", features = ["derive"] }
env_logger = "0.11"
futures = "0.3"
itertools = "=0.13.0"
log = "0.4"
mp4 = "0.14"
tokio = { version = "1", features = ["full"] }
tracing = "0.1"
tracing-subscriber = "0.3"
url = "2"
