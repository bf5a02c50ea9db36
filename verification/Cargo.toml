[package]
name = "basango"
version = "0.1.0"
edition = "2021"
publish = false

[dependencies]
anyhow = "=1.0.104"
chrono = { version = "=0.4.45", features = ["serde"] }
clap = { version = "=4.6.7", features = ["derive"] }
dotenvy = "=0.15.7"
ego-tree = "=0.11.1"
html2md = "=0.2.17"
httpdate = "=1.0.3"
md5 = "=0.7.0"
rand = "=0.9.5"
redis = { version = "=1.8.1", features = ["tokio-comp"] }
regex = "=1.13.1"
reqwest = { version = "=0.12.28", default-features = false, features = ["json", "rustls-tls"] }
rusqlite = { version = "=0.41.1", features = ["bundled"] }
scraper = "=0.29.0"
serde = { version = "=1.0.229", features = ["derive"] }
serde_json = "=1.0.154"
thiserror = "=2.0.21"
tokio = { version = "=1.54.1", features = ["full"] }
tracing = "=0.1.44"
tracing-subscriber = { version = "=0.3.23", features = ["env-filter"] }
url = { version = "=2.5.8", features = ["serde"] }
uuid = { version = "=1.29.0", features = ["v7"] }
zod-rs = "=1.1.1"
