[package]
name = "termlog"
version = "0.1.0"
edition = "2021"
publish = false

[dependencies]
anyhow = "1"
arboard = { version = "3", default-features = false }
color-eyre = "0.6"
crossterm = "0.28"
dirs = "5"
libc = "0.2"
log = "0.4"
memmap2 = "0.9"
ratatui = "0.29"
regex = "1"
uuid = { version = "1", features = ["v4"] }
