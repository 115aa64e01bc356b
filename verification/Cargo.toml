[package]
name = "compar"
version = "0.1.0"
edition = "2021"
publish = false

[dependencies]
clap = { version = "4", features = ["derive"] }
encoding_rs = "0.8"
indicatif = "0.17"
unicode-normalization = "0.1"
