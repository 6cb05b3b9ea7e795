[package]
name = "draco_bf6"
version = "0.1.0"
edition = "2021"
publish = false

[dependencies]
imgui = "0.12"
tracing = "0.1"
