[package]
name = "pimon"
version = "0.1.0"
edition = "2021"
publish = false

[dependencies]
chrono = "*"
pi-hole-api = "*"
serde = { version = "*", features = ["derive"] }
serde_json = "*"
structopt = "*"
tui = { version = "*", default-features = false, features = ["crossterm"] }
crossterm = "*"
