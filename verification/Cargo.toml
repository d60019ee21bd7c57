[package]
name = "crust_std"
version = "0.1.0"
edition = "2021"
publish = false

[dependencies]
serde = "1"
sptr = "0.3"

[dev-dependencies]
serde_json = "1"
