[package]
name = "autoshengji"
version = "0.1.0"
edition = "2021"
publish = false

[dependencies]
clap = { version = "=4.6.7", features = ["derive"] }
rand = "=0.8.8"
serde_json = "=1.0.154"
tracing = "=0.1.44"
tracing-subscriber = { version = "=0.3.23", features = ["env-filter"] }
tungstenite = { version = "=0.21.0", features = ["rustls-tls-webpki-roots"] }
zstd = "=0.13.3"
