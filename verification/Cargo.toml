[package]
name = "smaragdine"
version = "0.1.0"
edition = "2021"
publish = false

[dependencies]
azalea-brigadier = "*"
reedline = { version = "*", features = ["external_printer"] }
crossterm = "*"
nu-ansi-term = "*"
crossbeam = "*"
parking_lot = "*"
tokio = { version = "*", features = ["rt", "rt-multi-thread"] }
