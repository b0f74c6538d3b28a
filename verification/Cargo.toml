[package]
name = "crate2bib"
version = "0.1.0"
edition = "2021"
publish = false

[dependencies]
semver = "1"
crates_io_api = "0.11"
reqwest = { version = "0.12", default-features = false, features = ["rustls-tls"] }
tokio = { version = "1", features = ["rt-multi-thread", "macros"] }
chrono = "0.4"
citeworks-cff = "*"
