[package]
name = "remapd"
version = "0.1.0"
edition = "2021"
publish = false

[dependencies]
evdev = "0.12"
shlex = "1"
clap = { version = "4", features = ["derive"] }
env_logger = "*"
log = "*"
nix = "0.26"
signal-hook = "*"
notify-rust = "*"
serde = { version = "1", features = ["derive"] }
serde_yaml = "*"
indexmap = { version = "*", features = ["serde"] }
termcolor = "*"
x11rb = "*"
