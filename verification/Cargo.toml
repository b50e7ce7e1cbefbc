[package]
name = "rpmi"
version = "0.1.0"
edition = "2021"
publish = false

[dependencies]
rpm = { version = "0.30.2", default-features = false }
