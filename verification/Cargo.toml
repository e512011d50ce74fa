[package]
name = "cache_buster"
version = "0.1.0"
edition = "2021"
publish = false

[dependencies]
md-5 = "*"
digest = "*"
glob = "*"
serde = "*"
serde_derive = "*"
serde_json = "*"
clap = "*"
