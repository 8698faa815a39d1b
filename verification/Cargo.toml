[package]
name = "gg_core"
version = "0.1.0"
edition = "2021"
publish = false

[dependencies]
toml_edit = "=0.25.17"
humantime = "=2.4.0"
etcetera = "=0.11.0"
dunce = "=1.0.5"
clap = { version = "4", features = ["derive"] }
interprocess = "2"
uuid = { version = "1", features = ["v4"] }
