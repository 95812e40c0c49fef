[package]
name = "pandas_maxminddb"
version = "0.1.0"
edition = "2021"
publish = false

[dependencies]
maxminddb = { version = "0.24", features = ["mmap"] }
rayon = "1"
pyo3 = { version = "0.20", features = ["abi3-py37", "extension-module"] }
numpy = "0.20"
thiserror = "1"
syn = { version = "1", features = ["full", "visit", "extra-traits"] }
quote = "1"
proc-macro2 = "1"

[dev-dependencies]
memmap2 = "*"
