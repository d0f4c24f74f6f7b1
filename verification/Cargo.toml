[package]
name = "file_panes"
version = "0.1.0"
edition = "2021"
publish = false

[dependencies]
crossterm = "*"
ratatui = "*"
ssh2 = "*"
tokio = { version = "*", features = ["rt-multi-thread"] }
