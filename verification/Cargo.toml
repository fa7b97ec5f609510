[package]
name = "paranoid-space"
version = "0.1.0"
edition = "2021"
publish = false

[dependencies]
unicode-width = "0.2"
regex = "1"
clap = { version = "4", features = ["derive"] }
console = "0.15"
