[package]
name = "xtee"
version = "0.1.0"
edition = "2021"
publish = false

[dependencies]
crc = "3"
cobs-codec = "*"
anyhow = "1"
thiserror = "*"
futures = "0.3"
ractor = "*"
ractor_actors = "*"
serde = { version = "1", features = ["derive"] }
serde_json = "1"
specta = "*"
tokio = { version = "1", features = ["full"] }
tokio-util = { version = "*", features = ["codec"] }
tokio-serial = "*"
tracing = "*"
tracing-appender = "*"
tracing-subscriber = "*"
pid-lite = "*"
rspc = "*"
