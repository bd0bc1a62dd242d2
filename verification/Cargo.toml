[package]
name = "bins"
version = "0.1.0"
edition = "2021"
publish = false

[dependencies]
clap = "2"
hyper = "0.10"
url = "1"
toml = "0.4"
serde = "1"
serde_derive = "1"
serde_json = "1"
log = "0.3"
