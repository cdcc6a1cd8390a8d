[package]
name = "pgcheck"
version = "0.1.0"
edition = "2021"
publish = false

[dependencies]
actix-web = "*"
deadpool-postgres = "*"
tokio-postgres = "*"
