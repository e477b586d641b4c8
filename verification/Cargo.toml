[package]
name = "nosman"
version = "0.1.0"
edition = "2021"
publish = false

[dependencies]
chrono = "*"
clap = "*"
colored = "*"
dunce = "*"
flate2 = "*"
globwalk = "*"
indicatif = "*"
libloading = "*"
reqwest = { version = "*", default-features = false, features = ["blocking"] }
serde = { version = "*", features = ["derive"] }
serde_json = "*"
tar = "*"
tempfile = "*"
zip = "*"
