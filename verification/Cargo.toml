[package]
name = "columnar"
version = "0.1.0"
edition = "2021"
publish = false

[dependencies]
arrow-array = "=60.0.0"
arrow-data = "=60.0.0"
arrow-schema = "=60.0.0"
arrow-ipc = { version = "=60.0.0", features = ["lz4"] }
parquet = { version = "=60.0.0", default-features = false, features = ["arrow"] }
bytes = "=1.12.1"
