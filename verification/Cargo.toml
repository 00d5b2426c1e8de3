[package]
name = "type_wiz"
version = "0.1.0"
edition = "2021"
publish = false

[dependencies]
bincode = "2"
chrono = { version = "0.4", features = ["serde"] }
clap = { version = "4", features = ["derive"] }
console = "*"
crossterm = "0.28"
dialoguer = "*"
directories = "*"
rand = "0.9"
ratatui = "0.29"
serde = { version = "1", features = ["derive"] }
serde_json = "1"
