[package]
name = "structure_scan"
version = "0.1.0"
edition = "2021"
publish = false

[dependencies]
syn = { version = "2", features = ["full"] }
chrono = "0.4"
rand = "0.8"
