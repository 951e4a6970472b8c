[package]
name = "speedy"
version = "0.1.0"
edition = "2021"
publish = false

[dependencies]
chrono = "=0.4.45"
clap = "=4.6.7"
kstring = "=2.0.2"
liquid = "=0.26.11"
pulldown-cmark = "=0.13.5"
tokio = { version = "=1.54.1", features = ["rt"] }
warp = { version = "=0.3.7", default-features = false }
