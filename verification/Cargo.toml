[package]
name = "solkit"
version = "0.1.0"
edition = "2021"
publish = false

[dependencies]
anyhow = "1"
bitflags = "1"
crossterm = "0.18"
dirs = "3"
getopts = "0.2"
log = "0.4"
nanorand = "0.5"
serde = "1"
serde_derive = "1"
simplelog = "0.9"
thiserror = "1"
toml = "0.5"
unicode-width = "0.1"
