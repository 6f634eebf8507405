[package]
name = "cs262"
version = "0.1.0"
edition = "2021"
publish = false

[dependencies]
anyhow = "1"
clap = { version = "4", features = ["derive"] }
colored = "2"
fastrand = "1"
flume = "0.10"
parking_lot = "0.12"
rusqlite = { version = "0.29", features = ["bundled"] }
socket2 = { version = "0.5", features = ["all"] }
tracing = "0.1"
tracing-subscriber = "0.3"
wildmatch = "2"
