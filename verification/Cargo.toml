[package]
name = "assist_core"
version = "0.1.0"
edition = "2021"
publish = false

[dependencies]
either = "1"
rustc-hash = "1"
