[package]
name = "vu_meter"
version = "0.1.0"
edition = "2021"
publish = false

[dependencies]
clap = { version = "4", features = ["derive"] }
itertools = "*"
jack = "*"
nix = { version = "*", features = ["signal"] }
serde_json = "1"
