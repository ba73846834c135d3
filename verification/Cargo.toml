[package]
name = "app_versions"
version = "0.1.0"
edition = "2021"
publish = false

[dependencies]
afire = { version = "=2.2.1", features = ["extensions"] }
parking_lot = "=0.12.5"
rusqlite = { version = "=0.41.1", features = ["bundled", "fallible_uint"] }
semver = "=1.0.28"
serde_json = "=1.0.154"
sha2 = "=0.10.9"
simple_config_parser = "=1.0.0"
uuid = { version = "=1.29.1", features = ["v4"] }
