[package]
name = "netchart"
version = "0.1.0"
edition = "2021"
publish = false

[dependencies]
anyhow = "*"
blake2 = "*"
ratatui = "*"
sysinfo = "*"
