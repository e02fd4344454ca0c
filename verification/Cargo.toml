[package]
name = "calbot"
version = "0.1.0"
edition = "2021"
publish = false

[dependencies]
serenity = { version = "0.10", features = ["standard_framework", "unstable_discord_api"] }
tokio = { version = "1", features = ["macros", "rt-multi-thread", "sync", "fs", "signal"] }
serde = { version = "1", features = ["derive"] }
serde_json = "1"
toml = "0.5"
tracing = "0.1"
tracing-subscriber = { version = "0.3", features = ["env-filter"] }
color-eyre = "0.6"
