[package]
name = "arbor"
version = "0.1.0"
edition = "2021"
publish = false

[dependencies]
anyhow = "1"
clap = { version = "4", features = ["derive"] }
clap_complete = "4"
colored = "*"
comfy-table = "7"
dialoguer = { version = "*", features = ["fuzzy-select"] }
dirs = "*"
serde = { version = "1", features = ["derive"] }
serde_json = "1"
toml = "*"
