[package]
name = "bcvk-toolbox"
version = "0.1.0"
edition = "2021"
publish = false

[dependencies]
camino = "1"
color-eyre = "0.6"
tracing = "0.1"
