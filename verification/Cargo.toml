[package]
name = "ridgeback"
version = "0.1.0"
edition = "2021"
publish = false

[dependencies]
regex = "=1.13.1"
vte = "=0.13.1"
serde_json = "1"
