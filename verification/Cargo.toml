[package]
name = "reader_core"
version = "0.1.0"
edition = "2021"

[dependencies]
sha2 = "0.10"
html2text = "*"
serde = { version = "1", features = ["derive"] }
toml = "*"
epub = "*"
