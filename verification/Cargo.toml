[package]
name = "nodejs_resolver"
version = "0.1.0"
edition = "2021"
publish = false

[dependencies]
dashmap = "5"
smol_str = "0.1"
serde_json = "1"
