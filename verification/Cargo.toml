[package]
name = "rust-changelogs"
version = "0.1.0"
edition = "2021"
publish = false

[dependencies]
anyhow = "=1.0.104"
chrono = "=0.4.45"
fs_extra = "=1.3.0"
itertools = "=0.15.0"
octocrab = "=0.47.1"
pluralizer = "=0.6.0"
regex = "=1.13.1"
reqwest = "=0.13.5"
semver = "=1.0.28"
tap = "=1.0.1"
tokio = { version = "=1.54.1", features = ["full"] }
