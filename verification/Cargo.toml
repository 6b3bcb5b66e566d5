[package]
name = "machined-openapi-gen"
version = "0.1.0"
edition = "2021"
publish = false

[dependencies]
serde_json = "1"
axum = "0.7"
inventory = "0.3"
