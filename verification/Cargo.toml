[package]
name = "ch347_rs"
version = "0.1.0"
edition = "2021"
publish = false

[dependencies]
clap = { version = "3.2", features = ["derive"] }
console = "0.15"
indicatif = "0.17"
humantime = "2"
cli-table = "0.4"
libc = "0.2"
