[package]
name = "finance_miner"
version = "0.1.0"
edition = "2021"
publish = false

[dependencies]
encoding = "0.2"
hyper = "0.10"
log = "0.3"
prettytable-rs = "*"
regex = "0.1"
yaml-rust = "0.3"
