[package]
name = "cargo_generate"
version = "0.1.0"
edition = "2021"
publish = false

[dependencies]
anyhow = "=1.0.104"
console = "=0.16.6"
liquid = "=0.25.1"
liquid-core = "=0.25.1"
regex = "=1.13.1"
rhai = "=1.26.1"
semver = "=1.0.28"
tempfile = "=3.27.0"
toml = "=0.8.23"
