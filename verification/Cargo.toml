[package]
name = "whatql"
version = "0.1.0"
edition = "2021"
publish = false

[dependencies]
anyhow = "*"
sqlparser = "*"
