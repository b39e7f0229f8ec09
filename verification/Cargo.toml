[package]
name = "garch"
version = "0.1.0"
edition = "2021"

[dependencies]
clap = "4"
crossterm = "0.28"
syntect = { version = "5", default-features = false, features = ["default-fancy"] }
