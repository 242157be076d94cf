[package]
name = "paneru"
version = "0.1.0"
edition = "2021"
publish = false

[dependencies]
bevy = { version = "0.17", default-features = false }
crossbeam-channel = "0.5"
tracing = "0.1"
