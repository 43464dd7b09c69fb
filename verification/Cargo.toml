[package]
name = "admintui"
version = "0.1.0"
edition = "2021"
publish = false

[dependencies]
arboard = "*"
chrono = "0.4"
chrono-tz = "*"
cron-descriptor = "*"
cron-parser = "*"
ratatui = "0.29"
tui-big-text = "0.7"
unicode-width = "*"
