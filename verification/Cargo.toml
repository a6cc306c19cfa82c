[package]
name = "release_plz_core"
version = "0.1.0"
edition = "2021"
publish = false

[dependencies]
cargo_metadata = "=0.18.1"
chrono = "=0.4.45"
git-url-parse = "=0.4.6"
parse-changelog = "=0.6.18"
regex = "=1.13.1"
secrecy = "=0.10.3"
serde = { version = "1", features = ["derive"] }
toml = "0.8"
url = "=2.5.8"
