[package]
name = "freeways_launcher"
version = "0.1.0"
edition = "2021"
publish = false

[dependencies]
tar = "*"

[dev-dependencies]
simple_config_parser = "*"
