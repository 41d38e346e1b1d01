[package]
name = "hiview"
version = "0.1.0"
edition = "2021"
publish = false

[dependencies]
lru = "0.12"
notatin = "*"
ratatui = "0.26"
crossterm = "0.27"
hxdmp = "*"
