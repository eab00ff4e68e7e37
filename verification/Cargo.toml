[package]
name = "gitui-view"
version = "0.1.0"
edition = "2021"
publish = false

[dependencies]
anyhow = "1"
chrono = "0.4"
crossterm = "0.28"
git2 = { version = "0.20", default-features = false }
indexmap = "2"
lazy_static = "1"
ratatui = "0.29"
regex = "1"
syntect = { version = "5", default-features = false, features = ["default-syntaxes", "default-themes", "regex-fancy", "parsing", "html"] }
terminal-colorsaurus = "0.4"
unicode-segmentation = "1"
unicode-width = "0.2"
