[package]
name = "fht-compositor"
version = "0.1.0"
edition = "2021"
publish = false

[dependencies]
indexmap = "*"
grass = "*"
colors-transform = "*"
serde = { version = "*", features = ["derive"] }
