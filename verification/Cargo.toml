[package]
name = "dedup"
version = "0.1.0"
edition = "2021"
publish = false

[dependencies]
byte-unit = "4"
chrono = "0.4"
clap = { version = "4", features = ["derive"] }
crc64fast = "1"
libc = "0.2"
shellexpand = "2"
termcolor = "1"
