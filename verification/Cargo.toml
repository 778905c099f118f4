[package]
name = "rs-ints2uniq2arrow"
version = "0.1.0"
edition = "2021"
publish = false

[dependencies]
arrow = { version = "=60.0.0", default-features = false }
