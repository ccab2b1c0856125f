[package]
name = "svnpush_core"
version = "0.1.0"
edition = "2021"
publish = false

[dependencies]
semver = "1"
regex = "1"
similar = "2"
roxmltree = "*"
ignore = "0.4"
serde = { version = "1", features = ["derive"] }
serde_json = "1"
walkdir = "2"
keyring = "3"
tokio = { version = "1", features = ["process", "io-util", "macros", "rt", "sync", "time"] }
tokio-util = "0.7"
