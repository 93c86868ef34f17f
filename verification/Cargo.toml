[package]
name = "spautofy"
version = "0.1.0"
edition = "2021"
publish = false

[dependencies]
rand = "*"
chrono = "*"
reqwest = { version = "*", default-features = false, features = ["json"] }
rocket = "*"
serde = { version = "*", features = ["derive"] }
serde_json = "*"
thiserror = "*"
clap = { version = "*", features = ["derive"] }
crossterm = "*"
ratatui = "*"
