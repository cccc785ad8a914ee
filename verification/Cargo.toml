[package]
name = "markchini"
version = "1.0.0"
edition = "2021"
publish = false

[dependencies]
pulldown-cmark = { version = "=0.13.6", default-features = false }
base64 = "=0.22.1"
serde = { version = "1", features = ["derive"] }
headless_chrome = "=1.0.22"
