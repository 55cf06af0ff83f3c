[package]
name = "sudel"
version = "0.1.0"
edition = "2021"
publish = false

[dependencies]
rand = "0.8"
walkdir = "2"
clap = { version = "4", features = ["derive"] }
global-hotkey = "0.6"
tao = "0.30"
rfd = "0.15"
auto-launch = "0.5"
