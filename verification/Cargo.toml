[package]
name = "rust-crud-api"
version = "0.1.0"
edition = "2021"
publish = false

[dependencies]
serde_json = "1"
postgres = "0.19"
