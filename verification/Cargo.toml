[package]
name = "untis_telegram_bot"
version = "0.1.0"
edition = "2021"
publish = false

[dependencies]
teloxide = { version = "=0.13.0", default-features = false }
# Not used directly: teloxide's core depends on it, and later versions need a
# newer compiler than this project builds with, so its version is held here.
takecell = "=0.1.0"
chrono = "=0.4.45"
tokio = { version = "=1.54.1", features = ["rt-multi-thread", "macros", "time"] }
tracing = "=0.1.44"
tracing-subscriber = { version = "=0.3.23", features = ["env-filter"] }
eyre = "=0.6.14"
config = { version = "=0.14.1", default-features = false, features = ["toml"] }
serde_json = "=1.0.154"
