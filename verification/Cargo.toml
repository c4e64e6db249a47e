[package]
name = "quotelementa"
version = "0.1.0"
edition = "2021"
publish = false

[dependencies]
url = "=2.5.8"
tokio = { version = "=1.53.2", features = ["full"] }
fantoccini = { version = "=0.22.1", default-features = false, features = ["rustls-tls"] }
deadqueue = "=0.2.5"
eyre = "=0.6.14"
argh = "=0.1.19"
crossterm = { version = "=0.29.0", features = ["event-stream"] }
ratatui = "=0.30.2"
futures-util = "=0.3.34"
serde_json = "=1.0.151"
tracing = "=0.1.44"
tracing-appender = "=0.2.5"
tracing-subscriber = "=0.3.23"
unicode-width = "=0.2.2"
