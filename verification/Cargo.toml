[package]
name = "mesh_core"
version = "0.1.0"
edition = "2021"
publish = false

[dependencies]
regex = "*"
indexmap = "*"
tower = { version = "0.4", features = ["retry"] }
tower-retry = "*"
