[package]
name = "autoenv"
version = "0.1.0"
edition = "2021"
publish = false

[dependencies]
glob = "*"
walkdir = "*"
log = "*"
colog = "*"
clap = { version = "*", features = ["derive"] }
