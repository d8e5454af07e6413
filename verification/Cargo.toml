[package]
name = "release_plz_core"
version = "0.1.0"
edition = "2021"
publish = false

[dependencies]
anyhow = "*"
cargo_metadata = "*"
chrono = "*"
dunce = "*"
fs-err = "*"
git-cliff-core = { version = "*", default-features = false }
ignore = "*"
serde_json = "*"
tempfile = "*"
toml_edit = "*"
tracing = "*"
