[package]
name = "dinein_takeout_billing"
version = "0.1.0"
edition = "2021"
publish = false

[dependencies]
chrono = "0.4"
csv = "1"
fuzzy-matcher = "0.3"
ratatui = "0.28"
crossterm = "0.28"
qrcode = { version = "0.14", default-features = false }
thiserror = "*"
tokio = { version = "1", features = ["rt", "sync"] }
turso = "*"
