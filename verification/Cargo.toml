[package]
name = "git_delayed"
version = "0.1.0"
edition = "2021"
publish = false

[dependencies]
anyhow = "1"
chrono = { version = "0.4", features = ["serde"] }
clap = { version = "4", features = ["derive"] }
daemonize = "0.5"
dirs = "5"
fs2 = "0.4"
git2 = { version = "*", default-features = false }
nix = { version = "*", features = ["signal", "process"] }
regex = "1"
serde = { version = "1", features = ["derive"] }
serde_json = "1"
uuid = { version = "1", features = ["v4"] }
