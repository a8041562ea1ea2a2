[package]
name = "site_checker"
version = "0.1.0"
edition = "2021"
publish = false

[dependencies]
url = "2"
uuid = { version = "1", features = ["v4"] }
rand = "0.9"
serde = { version = "1", features = ["derive"] }
serde_json = "1"
reqwest = { version = "0.12", default-features = false }
tokio = { version = "1", features = ["time", "rt", "macros"] }
auto-launch = "0.5"
