[package]
name = "rns_dns"
version = "0.1.0"
edition = "2021"
publish = false

[dependencies]
shlex = "=1.3.0"
base64 = "=0.22.1"
chrono = "=0.4.45"
colored = "=3.1.1"
ratatui = "=0.30.2"
tokio = { version = "=1.54.1", features = ["full"] }
cli-clipboard = "=0.4.0"
ansi-to-tui = "=8.0.1"
clap = "=4.6.7"
reticulum = "*"
rand_core = { version = "0.6", features = ["getrandom"] }
