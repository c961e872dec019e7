[package]
name = "rongta"
version = "0.1.0"
edition = "2021"
publish = false

[dependencies]
escpos = "*"
serde = { version = "*", features = ["derive"] }
serde_json = "*"
pulldown-cmark = "*"
rand = "*"
anyhow = "*"
