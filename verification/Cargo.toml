[package]
name = "service_gen"
version = "0.1.0"
edition = "2021"
publish = false

[dependencies]
heck = "*"
syn = { version = "*", features = ["full", "visit"] }
