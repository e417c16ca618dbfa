[package]
name = "edot"
version = "0.1.0"
edition = "2021"
publish = false

[dependencies]
ropey = "1"
shlex = "1"
anyhow = "1"
crossbeam-channel = "0.5"
log = "0.4"
signal-hook = "0.1"
termion = "1.5"
thiserror = "1"
