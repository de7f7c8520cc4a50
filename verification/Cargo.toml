[package]
name = "re_arrow2"
version = "0.1.0"
edition = "2021"
publish = false

[dependencies]
arrow-array = "*"
arrow-buffer = "*"
arrow-schema = "*"
bytemuck = { version = "*", features = ["derive"] }
ethnum = "*"
half = { version = "*", features = ["bytemuck"] }
parquet2 = { version = "0.17", default-features = false, features = ["snappy", "gzip", "brotli", "lz4_flex"] }
serde = { version = "*", features = ["derive"] }
serde_derive = "*"
