[package]
name = "duckize"
version = "0.1.0"
edition = "2021"
publish = false

[dependencies]
calamine = "*"
csv = "*"
color-eyre = "*"
crossterm = "*"
duckdb = "*"
ratatui = "*"
tokio = { version = "*", features = ["macros", "rt-multi-thread", "time", "sync"] }
