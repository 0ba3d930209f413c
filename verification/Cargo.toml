[package]
name = "pipa_collector"
version = "0.1.0"
edition = "2021"
publish = false

[dependencies]
libc = "*"
perf-event-open-sys = "*"
anyhow = "*"
clap = { version = "*", features = ["derive"] }
crossterm = "*"
