[package]
name = "wargo"
version = "0.1.0"
edition = "2021"
publish = false

[dependencies]
cargo_metadata = "0.18"
color-eyre = "0.6"
dirs = "5"
filetime = "0.2"
globwalk = "0.9"
indicatif = "0.17"
toml = "0.8"
