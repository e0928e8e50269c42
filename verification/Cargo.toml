[package]
name = "jj_run"
version = "0.1.0"
edition = "2021"
publish = false

[dependencies]
ansi-to-tui = "*"
clap = { version = "4", features = ["derive"] }
crossterm = "0.29"
futures = "0.3"
itertools = "*"
pollster = "*"
ratatui = "0.30"
thiserror = "2"
