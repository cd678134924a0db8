[package]
name = "chord_dht"
version = "0.1.0"
edition = "2021"
publish = false

[dependencies]
rust-crypto = "0.2"
chrono = "0.4"
colored = "1"
num = "0.2"
num-bigint = { version = "0.2", features = ["serde"] }
serde = { version = "1", features = ["derive"] }
serde_derive = "1"
serde_json = "1"
tokio = "0.1"
futures = "0.1"
clap = "2"
log = "0.4"
log4rs = "0.8"
prettytable-rs = "0.8"
get_if_addrs = "0.5"
signal-hook = "0.1"
