[package]
name = "rfc_reader"
version = "0.1.0"
edition = "2021"
publish = false

[dependencies]
anyhow = "1"
bitflags = "2"
clap = "4"
crossterm = "0.29"
log = "0.4"
ratatui = "0.30"
regex = "1"
textwrap = "0.16"
