[package]
name = "libra_config"
version = "0.1.0"
edition = "2021"
publish = false

[dependencies]
anyhow = "1"
rand = "0.8"
toml_edit = "0.22"

[dev-dependencies]
serde = "1"
serde_yaml = "0.9"
