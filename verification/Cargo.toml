[package]
name = "sysmon"
version = "0.1.0"
edition = "2021"
publish = false

[dependencies]
sysinfo = "0.29"
psutil = "3"
nix = "0.26"
tui = "0.19"
crossterm = "0.25"
ptree = { version = "0.4", default-features = false }
unicode-width = "0.1"
pretty-bytes = "0.2"
