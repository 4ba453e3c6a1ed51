[package]
name = "acct"
version = "0.1.0"
edition = "2021"
publish = false

[dependencies]
chrono = { version = "0.4", default-features = false, features = ["std"] }
clap = "2"
users = "0.11"

[dev-dependencies]
bincode = "1"
