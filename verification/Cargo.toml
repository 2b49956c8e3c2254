[package]
name = "figtree"
version = "0.1.0"
edition = "2021"
publish = false

[dependencies]
clap = "4"
dotenvy = "0.15"
serde_json = "1"
serde_yaml = "0.9"
toml = "0.8"
rust-ini = "0.21"
plist = "1"
ron = "0.8"
