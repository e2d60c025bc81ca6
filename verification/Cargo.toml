[package]
name = "engine"
version = "0.1.0"
edition = "2021"
publish = false

[dependencies]
pulldown-cmark = "0.9"
html-minifier = "3"
sha2 = "0.10"
url = "2"
syntect = "5"
tokio = { version = "1", features = ["full"] }
tokio-util = { version = "0.7", features = ["compat"] }
surf = "2"
image = "0.24"
webp = "0.2"
anyhow = "1"
argh = "0.1"
toml = "0.7"
serde = { version = "1", features = ["derive"] }
tracing = "0.1"
tracing-subscriber = { version = "0.3", features = ["env-filter"] }
