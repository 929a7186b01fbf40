[package]
name = "levenshtein_lib"
version = "0.1.0"
edition = "2021"
publish = false

[dependencies]
polars = { version = "0.35", default-features = false }
pyo3-polars = { version = "0.9", features = ["derive"] }
