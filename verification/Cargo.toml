[package]
name = "journal"
version = "0.1.0"
edition = "2021"
publish = false

[dependencies]
aes = "0.8"
rust-argon2 = "2"
getrandom = "0.2"
zeroize = "1"
crossterm = "0.27"
ratatui = "0.26"
rpassword = "7"
