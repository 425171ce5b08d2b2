[package]
name = "ssh_relay"
version = "0.1.0"
edition = "2021"
publish = false

[dependencies]
russh = "0.44"
russh-keys = "0.44"
tokio = { version = "1", features = ["sync", "rt-multi-thread", "macros", "io-util", "time"] }
async-trait = "0.1"
