[package]
name = "campus_autologin"
version = "0.1.0"
edition = "2021"
publish = false

[dependencies]
anyhow = "1"
clap = { version = "4", features = ["derive"] }
crossterm = "0.28"
directories = "5"
if-addrs = "0.13"
ipnet = "2"
md5 = "0.7"
ratatui = "0.29"
reqwest = { version = "0.12", default-features = false, features = ["blocking"] }
serde = { version = "1", features = ["derive"] }
toml = "0.8"
