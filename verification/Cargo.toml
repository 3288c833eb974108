[package]
name = "tpi"
version = "0.1.0"
edition = "2021"
publish = false

[dependencies]
anyhow = "1"
colored = "2"
reqwest = { version = "0.12", features = ["blocking"] }
sorbet_kvp = "*"
tempfile = "3"
