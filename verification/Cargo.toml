[package]
name = "idgen"
version = "0.1.0"
edition = "2021"
publish = false

[dependencies]
uuid = { version = "*", features = ["v1", "v3", "v4", "v5", "v6", "v7"] }
