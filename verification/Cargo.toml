[package]
name = "plugin_statistics"
version = "0.1.0"
edition = "2021"
publish = false

[dependencies]
mysql = { version = "*", default-features = false, features = ["minimal-rust"] }
serde = { version = "1", features = ["derive"] }
serde_json = "1"
