[package]
name = "radix_table"
version = "0.1.0"
edition = "2021"
publish = false

[dependencies]
ahash = "*"
prettytable-rs = "*"
rayon = "*"
