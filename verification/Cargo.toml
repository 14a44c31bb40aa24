[package]
name = "palette"
version = "0.1.0"
edition = "2021"
publish = false

[dependencies]
json = "0.12"
rand = "0.8"
clap = "4"
cli-clipboard = "0.4"
