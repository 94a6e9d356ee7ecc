[package]
name = "zbus"
version = "0.1.0"
edition = "2021"
publish = false

[dependencies]
nix = "0.17"
once_cell = "1"
serde = "1"
syn = "1"
