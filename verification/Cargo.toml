[package]
name = "bakery"
version = "0.1.0"
edition = "2021"
publish = false

[dependencies]
serde_json = "1"
indexmap = "2"
regex = "1"
users = "0.11"
chrono = { version = "0.4", default-features = false, features = ["clock"] }
clap = "4"
glob = "0.3"
tempdir = "0.3"
zip = { version = "2", default-features = false }
thiserror = "1"
