[package]
name = "funkhunt"
version = "0.1.0"
edition = "2021"
publish = false

[dependencies]
walkdir = "*"
crossterm = "*"
ratatui = "*"
