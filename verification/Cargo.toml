[package]
name = "pji"
version = "0.1.0"
edition = "2021"
publish = false

[dependencies]
chrono = { version = "=0.4.45", default-features = false, features = ["std", "now", "serde"] }
serde = { version = "=1.0.229", features = ["derive"] }
clap = { version = "=4.6.7", features = ["derive"] }
confy = "=2.0.0"
directories = "=6.0.0"
dialoguer = { version = "=0.12.0", features = ["fuzzy-select"] }
comfy-table = "=8.0.1"
webbrowser = "=1.2.5"
arboard = { version = "=3.7.0", default-features = false }

[dev-dependencies]
regex = "=1.13.1"
