[package]
name = "file_conversion"
version = "0.1.0"
edition = "2021"
publish = false

[dependencies]
anyhow = "1"
calamine = "*"
chrono = "0.4"
flate2 = "1"
hex = "0.4"
rust_xlsxwriter = "*"
serde = { version = "1", features = ["derive"] }
sha2 = "0.10"
walkdir = "2"
which = "*"
zip = { version = "*", default-features = false, features = ["deflate"] }
