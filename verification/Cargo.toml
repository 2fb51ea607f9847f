[package]
name = "datamosh"
version = "0.1.0"
edition = "2021"
publish = false

[dependencies]
mp4 = "*"
rand = "*"
clap = { version = "*", features = ["derive"] }
