[package]
name = "takeoff"
version = "0.1.0"
edition = "2021"
publish = false

[dependencies]
anyhow = "=1.0.104"
clap = "=4.6.7"
glob = "=0.3.4"
grass = "=0.13.4"
pulldown-cmark = "=0.13.4"
serde = { version = "=1.0.229", features = ["derive"] }
serde_json = "=1.0.151"
syntect = { version = "=5.3.0", default-features = false, features = ["default-fancy"] }
tera = { version = "=2.4.0", features = ["glob_fs"] }
toml = "=0.8.23"
tracing = "=0.1.44"
tracing-subscriber = "=0.3.23"
walkdir = "=2.5.0"
