[package]
name = "rsspal"
version = "0.1.0"
edition = "2021"
publish = false

[dependencies]
anyhow = "=1.0.104"
chrono = { version = "=0.4.45", features = ["serde"] }
clap = { version = "=4.6.7", features = ["derive"] }
flate2 = "=1.1.10"
nix = { version = "=0.29.0", features = ["signal"] }
quick-xml = { version = "=0.31.0", features = ["serialize"] }
reqwest = { version = "=0.11.27", default-features = false, features = ["rustls-tls"] }
serde = { version = "=1.0.229", features = ["derive"] }
serde_json = "=1.0.151"
serenity = "=0.11.7"
tokio = { version = "=1.53.2", features = ["rt-multi-thread", "macros", "signal", "sync", "time", "fs"] }
toml = "=0.8.23"
