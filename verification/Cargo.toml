[package]
name = "renri"
version = "0.1.0"
edition = "2021"
publish = false

[dependencies]
anyhow = "=1.0.104"
clap = { version = "=4.6.7", features = ["derive"] }
clap_complete = "=4.6.11"
dirs = "=6.0.0"
inquire = "=0.9.4"
kaishin = "=0.7.5"
owo-colors = "=4.4.0"
serde = { version = "1", features = ["derive"] }
serde_json = "1"
teravars = { version = "=0.2.2", features = ["merge"] }
tokio = { version = "1", features = ["rt", "rt-multi-thread", "time"] }
toml = "1.1"
tracing = "0.1"
tracing-subscriber = { version = "0.3", features = ["env-filter"] }
whoami = "=1.6.1"

[dev-dependencies]
tempfile = "=3.27.0"
