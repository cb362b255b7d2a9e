[package]
name = "mdbook-rust-doc"
version = "0.1.0"
edition = "2021"
publish = false

[dependencies]
anyhow = "1"
clap = { version = "4", features = ["derive"] }
lazy_static = "1"
mdbook = { version = "0.4", default-features = false }
pulldown-cmark = "*"
pulldown-cmark-to-cmark = "*"
regex = "1"
semver = "1"
serde = { version = "1", features = ["derive"] }
serde_json = "1"
shellexpand = "*"
syn = { version = "2", features = ["full"] }
toml = "0.5"
