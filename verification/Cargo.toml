[package]
name = "typebang"
version = "0.1.0"
edition = "2021"
publish = false

[dependencies]
rand = "0.9"
fontdb = "0.23"
ttf-parser = "0.25"
clap = { version = "4", features = ["derive", "env"] }
anyhow = "1"
