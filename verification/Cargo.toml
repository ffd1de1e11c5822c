[package]
name = "enso_parser"
version = "0.1.0"
edition = "2021"
publish = false

[dependencies]
anyhow = "1"
dirs = "*"
futures = "0.3"
heck = "0.4"
tokio = { version = "1", features = ["rt", "sync"] }
winreg = "*"
