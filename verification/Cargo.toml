[package]
name = "hashcheck"
version = "0.1.0"
edition = "2021"
publish = false

[dependencies]
md-5 = "=0.11.0"
hex = "=0.4.3"
crossbeam = "=0.8.5"
indicatif = "=0.18.6"
rayon = "=1.12.0"
clap = { version = "=4.6.7", features = ["derive"] }
color-eyre = "=0.6.5"
crossterm = "=0.29.0"
ratatui = "=0.30.2"
ratatui-explorer = "=0.3.0"
arboard = "=3.6.1"
itertools = "=0.14.0"
size = "=0.5.0"
