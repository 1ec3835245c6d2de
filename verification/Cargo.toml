[package]
name = "slack_tui"
version = "0.1.0"
edition = "2021"
publish = false

[dependencies]
chrono = "0.4"
dotenv = "*"
failure = "0.1"
hex = "0.3"
slack = "0.25"
termion = "1.5"
tui = "0.2"
