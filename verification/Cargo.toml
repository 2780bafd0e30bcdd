[package]
name = "corpex"
version = "0.1.0"
edition = "2021"
publish = false

[dependencies]
scraper = "=0.20.0"
ego-tree = "=0.6.3"
serde_json = "=1.0.154"
serde = { version = "=1.0.229", features = ["derive"] }
pdf-extract = "=0.7.12"
regex = "=1.13.1"
petgraph = "=0.6.5"
base64 = "=0.22.1"
anyhow = "=1.0.104"
reqwest = { version = "=0.12.28", default-features = false, features = ["json", "rustls-tls"] }
tokio = { version = "=1.54.1", features = ["rt-multi-thread", "time", "macros"] }
crossbeam-channel = "=0.5.17"
dirs = "=5.0.1"
dotenvy = "=0.15.7"
open = "=5.4.5"
tracing = "=0.1.44"
tracing-subscriber = { version = "=0.3.23", features = ["env-filter", "fmt"] }
egui = "=0.31.1"
