[package]
name = "rascaline"
version = "0.1.0"
edition = "2021"
publish = false

[dependencies]
indexmap = "*"
serde = { version = "*", features = ["derive"] }
schemars = "*"
ndarray = "*"
metatensor = "*"
