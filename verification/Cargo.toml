[package]
name = "flib_rs"
version = "0.1.0"
edition = "2021"
publish = false

[dependencies]
url = "*"
zip = "*"
tantivy = "*"
partialzip = "*"
