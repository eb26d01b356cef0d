[package]
name = "spotify_dl"
version = "0.1.0"
edition = "2021"
publish = false

[dependencies]
anyhow = "=1.0.104"
bytes = "=1.12.1"
dirs = "=7.0.0"
librespot-core = "=0.8.0"
librespot-metadata = "=0.8.0"
regex = "=1.13.1"
regex-syntax = "=0.8.11"
tracing = "=0.1.44"
vergen = { version = "=9.0.6", default-features = false }
