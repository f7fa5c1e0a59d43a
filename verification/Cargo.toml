[package]
name = "tang_cli"
version = "0.1.0"
edition = "2021"
publish = false

[dependencies]
rand = "0.8"
argh = "0.1"
chrono = "0.4"
indoc = "1"
sysinfo = "0.29"
tui = "0.19"
crossterm = "0.25"
