[package]
name = "cupcake"
version = "0.1.0"
edition = "2021"
publish = false

[dependencies]
rand = "0.8"
tokio = { version = "1", features = ["full"] }
crossterm = "0.28"
ratatui = "0.29"
tui-input = "0.11"
tui-tree-widget = "0.23"
dirs = "6"
color-eyre = "0.6"
