[package]
name = "jwatch"
version = "0.1.0"
edition = "2021"
publish = false

[dependencies]
rusqlite = { version = "=0.40.2", features = ["bundled", "fallible_uint"] }
time = "=0.3.55"
walkdir = "=2.5.0"
