[package]
name = "rshell"
version = "0.1.0"
edition = "2021"
publish = false

[dependencies]
anyhow = "1"
clap = { version = "3", features = ["derive", "env"] }
rustyline = "9"
rustyline-derive = "0.6"
