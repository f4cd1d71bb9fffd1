[package]
name = "ccorral"
version = "0.1.0"
edition = "2021"
publish = false

[dependencies]
crossterm = "=0.29.0"
portable-pty = "=0.9.0"
ratatui = "=0.30.2"
tui-term = "=0.3.4"
vt100 = "=0.16.2"
