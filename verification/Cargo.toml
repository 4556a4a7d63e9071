[package]
name = "record_scan"
version = "0.1.0"
edition = "2021"
publish = false

[dependencies]
snarkvm = { version = "*", default-features = false, features = ["console", "ledger"] }
serde_json = "*"
ureq = "*"
clap = { version = "*", features = ["derive"] }
anyhow = "*"
