[package]
name = "banzai"
version = "0.1.0"
edition = "2021"
publish = false

[dependencies]
arboard = { version = "3", default-features = false }
auto-launch = "0.5"
chrono = { version = "0.4", features = ["serde"] }
dirs = "5"
log = "0.4"
serde = { version = "1", features = ["derive"] }
serde_json = "1"
