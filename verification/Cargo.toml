[package]
name = "valeris"
version = "0.1.0"
edition = "2021"
publish = false

[dependencies]
regex = "1"
serde_json = "1"
jsonpath_lib = "*"
anyhow = "1"
bollard = "0.18"
clap = { version = "4", features = ["derive"] }
comfy-table = "7"
console = "0.15"
csv = "1"
dirs = "5"
dockerfile-parser = "*"
flate2 = "1"
reqwest = { version = "0.12", default-features = false, features = ["blocking", "rustls-tls"] }
serde = { version = "1", features = ["derive"] }
serde_yaml = "0.9"
tar = "0.4"
tokio = { version = "1", features = ["rt-multi-thread", "macros"] }
toml = "0.8"
tracing = "0.1"
tracing-subscriber = { version = "0.3", features = ["env-filter"] }
walkdir = "2"
