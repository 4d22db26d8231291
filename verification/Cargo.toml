[package]
name = "open_city_2k"
version = "0.1.0"
edition = "2021"
publish = false

[dependencies]
anyhow = "=1.0.104"
clap = { version = "=4.6.7", features = ["derive"] }
gzp = { version = "=2.0.4", default-features = false, features = ["deflate_rust"] }
log = "=0.4.34"
rmp-serde = "=1.3.1"
serde = { version = "=1.0.229", features = ["derive"] }
simplelog = "=0.12.2"
