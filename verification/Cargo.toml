[package]
name = "torrent_bot"
version = "0.1.0"
edition = "2021"
publish = false

[dependencies]
base64 = "0.13"
futures = "0.3"
hyper = { version = "0.14", features = ["client", "http1", "tcp", "runtime"] }
hyper-rustls = "0.22"
serde = { version = "1", features = ["derive"] }
serde_json = "1"
size_format = "1"
telegram-bot = "0.8"
tokio = { version = "1", features = ["macros", "rt-multi-thread"] }
tracing = "0.1"
tracing-subscriber = { version = "0.3", features = ["env-filter", "fmt"] }
url = "2"
