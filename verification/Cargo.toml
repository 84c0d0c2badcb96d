[package]
name = "tiersolve"
version = "0.1.0"
edition = "2021"
publish = false

[dependencies]
clap = { version = "*", features = ["derive"] }
regex = "*"
reqwest = { version = "*", default-features = false, features = ["blocking"] }
scraper = "*"
