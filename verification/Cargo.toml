[package]
name = "osuvs_engine"
version = "0.1.0"
edition = "2021"
publish = false

[dependencies]
regex = "*"
rosu-pp = "*"
reqwest = { version = "*", default-features = false, features = ["blocking"] }
