[package]
name = "erc20_cron"
version = "0.1.0"
edition = "2021"
publish = false

[dependencies]
anyhow = "1"
chrono = { version = "0.4", default-features = false, features = ["clock"] }
crossterm = "*"
hex = "0.4"
log = "0.4"
tokio = { version = "1", default-features = false, features = ["rt", "time"] }
web3 = { version = "*", default-features = false }
