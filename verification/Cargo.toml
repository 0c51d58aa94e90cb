[package]
name = "crossdev-stages"
version = "0.1.0"
edition = "2021"
publish = false

[dependencies]
sokgi = "=0.3.0"
gentoo-stages = "=0.6.1"
serde = { version = "=1.0.229", features = ["derive"] }
serde_json = "=1.0.154"
toml = "=1.1.8"
chrono = "=0.4.45"
etcetera = "=0.11.0"
camino = "=1.2.6"
walkdir = "=2.5.0"
clap = { version = "=4.6.7", features = ["derive"] }
sha2 = "=0.10.9"
anyhow = "=1.0.104"
thiserror = "=2.0.21"
hakoniwa = "=1.8.0"
libc = "=0.2.191"
jiff = "0.2"
