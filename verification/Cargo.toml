[package]
name = "jump"
version = "0.1.0"
edition = "2021"
publish = false

[dependencies]
regex = "1"
dirs = "5"
git2 = { version = "*", default-features = false }
tmux_interface = "*"
clap = { version = "4", features = ["derive"] }
clap_complete = "4"
serde = { version = "1", features = ["derive"] }
serde_json = "1"
toml = "*"
ignore = "*"
anyhow = "1"
libc = "0.2"
