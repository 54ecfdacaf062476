[package]
name = "graphql_recover"
version = "0.1.0"
edition = "2021"
publish = false

[dependencies]
rslint_parser = "*"
reqwest = { version = "*", default-features = false, features = ["blocking"] }
