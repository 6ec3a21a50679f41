[package]
name = "marketwise"
version = "0.2.0"
edition = "2021"
publish = false

[dependencies]
chrono = "0.4"
clap = "4"
env_logger = "*"
rust-ini = "*"
json = "0.12"
log = "0.4"
sqlite = "*"
ureq = "2"
