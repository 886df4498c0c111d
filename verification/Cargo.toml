[package]
name = "cubic"
version = "0.1.0"
edition = "2021"
publish = false

[dependencies]
regex = "1"
serde = { version = "1", features = ["derive"] }
serde_json = "1"
serde_yaml = "0.9"
sysinfo = "*"
crossterm = "*"
rustls = { version = "0.23", default-features = false, features = ["ring", "std", "tls12"] }
clap = { version = "4", features = ["derive"] }
tokio = { version = "1", features = ["rt", "macros"] }
