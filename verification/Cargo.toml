[package]
name = "gamepin"
version = "0.1.0"
edition = "2021"
publish = false

[dependencies]
anyhow = "1"
nix = "*"
smol = "2"
sysinfo = "*"
