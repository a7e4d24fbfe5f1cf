[package]
name = "help_offers"
version = "0.1.0"
edition = "2021"
publish = false

[dependencies]
rand = "0.8"
rocket = { version = "0.5", features = ["json"] }
serde = { version = "1", features = ["derive"] }
serde_json = "1"
deadpool-redis = "*"
figment = { version = "0.10", features = ["toml", "env"] }
lazy_static = "1"
