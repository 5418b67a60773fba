[package]
name = "aaura-w3-strawb"
version = "0.1.0"
edition = "2021"
publish = false

[dependencies]
axum = "0.7"
axum-macros = "0.4"
base64 = "0.22"
chrono = { version = "0.4", features = ["serde"] }
fontconfig = "0.9"
http = "1"
indexmap = "2"
lazy_static = "1"
maud = { version = "0.26", features = ["axum"] }
pulldown-cmark = "0.9"
pulldown-cmark-frontmatter = "0.2"
rand = "0.8"
serde = { version = "1", features = ["derive"] }
serde_json = "1"
slug = "0.1"
tokio = { version = "1", features = ["macros", "rt-multi-thread", "net"] }
toml = "0.8"
tower = "0.4"
tower-http = { version = "0.5", features = ["fs", "catch-panic", "compression-br", "compression-gzip", "compression-zstd", "set-header"] }
urlencoding = "2"
xxhash-rust = { version = "0.8", features = ["xxh3"] }
