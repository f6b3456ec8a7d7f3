[package]
name = "mdd"
version = "0.1.0"
edition = "2021"
publish = false

[dependencies]
anyhow = "1"
docx-rs = "0.4"
image = "0.25"
pulldown-cmark = "0.13"
serde = { version = "1", features = ["derive"] }
toml = "0.8"
