[package]
name = "file_search"
version = "0.1.0"
edition = "2021"
publish = false

[dependencies]
crossbeam-channel = "*"
rayon = "*"
serde = { version = "*", features = ["derive"] }
sysinfo = "*"
walkdir = "*"
