[package]
name = "changelog"
version = "0.1.0"
edition = "2021"
publish = false

[dependencies]
parse-changelog = "=0.6.18"
semver = "=1.0.28"
similar = "=3.2.1"
git-conventional = "=1.1.0"
indexmap = "=2.14.2"
chrono = "=0.4.45"
clap = { version = "=4.6.7", features = ["derive"] }
clap_complete = "=4.6.11"
colored = "=3.1.1"
dialoguer = "=0.12.0"
git2 = "=0.21.0"
reqwest = { version = "=0.12.28", default-features = false, features = ["blocking", "json", "rustls-tls"] }
serde = { version = "=1.0.229", features = ["derive"] }
tempfile = "=3.27.0"
