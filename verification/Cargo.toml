[package]
name = "debugid"
version = "0.1.0"
edition = "2021"
publish = false

[dependencies]
serde = "1.0"
uuid = "0.8"
