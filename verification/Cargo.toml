[package]
name = "jpk_reader"
version = "0.1.0"
edition = "2021"
publish = false

[dependencies]
zip = { version = "*", default-features = false, features = ["deflate"] }
rayon = "1"
polars = { version = "*", default-features = false, features = ["lazy", "csv", "dtype-u8"] }
