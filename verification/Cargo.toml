[package]
name = "dep_licenses"
version = "0.1.0"
edition = "2021"
publish = false

[dependencies]
serde = { version = "1", features = ["derive"] }
serde_json = "1"
serde_yaml = "0.9"
fs-err = "2"
clap = { version = "4", features = ["derive"] }

[dev-dependencies]
tempfile = "3"
