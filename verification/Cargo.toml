[package]
name = "rust_delay"
version = "0.1.0"
edition = "2021"
publish = false

[dependencies]
jack = "*"
structopt = "0.3"
