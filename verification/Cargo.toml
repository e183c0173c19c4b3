[package]
name = "deb_manifest"
version = "0.1.0"
edition = "2021"
publish = false

[dependencies]
glob = "=0.3.4"
toml = "=0.8.23"
serde_json = "=1.0.154"
serde = { version = "=1.0.229", features = ["derive"] }
