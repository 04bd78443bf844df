[package]
name = "cargo_release"
version = "0.1.0"
edition = "2021"
publish = false

[dependencies]
semver = "1"
cargo_metadata = "*"
toml = "*"
toml_edit = "*"
crates-index = "*"
ignore = "*"
chrono = "0.4"
log = "0.4"
env_logger = "*"
