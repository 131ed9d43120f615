[package]
name = "automotion"
version = "0.1.0"
edition = "2021"
publish = false

[dependencies]
regex = "1"
roxmltree = "0.20"
zip = { version = "2", default-features = false, features = ["deflate"] }
chrono = "0.4"
clap = { version = "4", features = ["derive"] }
ctrlc = "3"
uniffi = "0.29"
