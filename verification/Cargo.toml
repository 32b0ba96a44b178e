[package]
name = "kj_build"
version = "0.1.0"
edition = "2021"
publish = false

[dependencies]
anyhow = "1"
cc = "1"
serde_json = "1"
