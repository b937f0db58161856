[package]
name = "hurlbench"
version = "0.1.0"
edition = "2021"
publish = false

[dependencies]
anyhow = "1"
curl = "0.4"
hurl_core = "*"
