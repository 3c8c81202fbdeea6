[package]
name = "lintspec"
version = "0.1.0"
edition = "2021"
publish = false

[dependencies]
fastrand = "=2.5.0"
serde = { version = "=1.0.229", features = ["derive"] }
serde_json = "=1.0.154"
toml = "=0.8.23"
figment = { version = "=0.10.19", features = ["toml", "env"] }
clap = { version = "=4.6.7", features = ["derive"] }
clap_complete = "=4.6.11"
miette = { version = "=7.6.0", features = ["fancy"] }
rayon = "=1.12.0"
dunce = "=1.0.5"
ignore = "=0.4.34"
dotenvy = "=0.15.7"
thiserror = "=2.0.21"
solar-parse = "=0.2.0"
anyhow = "=1.0.104"
