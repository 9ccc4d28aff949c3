[package]
name = "jbod"
version = "0.1.0"
edition = "2021"
publish = false

[dependencies]
clap = "3"
colored = "2"
nix = { version = "0.26", features = ["process"] }
prettytable-rs = "0.10"
subprocess = "0.2"
