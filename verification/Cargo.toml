[package]
name = "rustywiki"
version = "0.1.0"
edition = "2021"
publish = false

[dependencies]
base64 = "0.13"
chrono = "0.4"
clap = "4"
log = "0.4"
rocket = { version = "0.5", features = ["json", "secrets"] }
rocket_prometheus = "0.10"
serde = { version = "1", features = ["derive"] }
serde_derive = "1"
serde_json = "1"
