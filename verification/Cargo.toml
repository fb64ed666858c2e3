[package]
name = "donttouch"
version = "0.1.0"
edition = "2021"
publish = false

[dependencies]
glob = "*"
clap = { version = "*", features = ["derive"] }
serde = { version = "*", features = ["derive"] }
toml = "*"
