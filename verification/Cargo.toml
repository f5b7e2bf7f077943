[package]
name = "deltachat_channels"
version = "0.1.0"
edition = "2021"
publish = false

[dependencies]
anyhow = "1"
iroh-base = { version = "0.16", features = ["key"] }
iroh-gossip = { version = "0.16", default-features = false }
mailparse = "0.14"
quinn = { version = "0.10", default-features = false, features = ["tls-rustls", "runtime-tokio"] }
rand = "0.8"
tokio = { version = "1", features = ["rt", "sync"] }
url = "2"
