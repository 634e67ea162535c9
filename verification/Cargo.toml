[package]
name = "horseshoe"
version = "0.1.0"
edition = "2021"
publish = false

[dependencies]
configparser = "3"
clap = { version = "4", features = ["derive"] }
fontdue = "0.9"
nix = { version = "0.29", features = ["fs", "term", "process", "signal", "user", "poll"] }
libc = "0.2"
calloop = "0.14"

[dev-dependencies]
xkeysym = "0.2"
