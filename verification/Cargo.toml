[package]
name = "kosmokopy"
version = "0.1.0"
edition = "2021"
publish = false

[dependencies]
ctrlc = "3"
gtk4 = { version = "0.9", features = ["v4_10"] }
sha2 = "0.10"
walkdir = "2"
