[package]
name = "ledger_engine"
version = "0.1.0"
edition = "2021"
publish = false

[dependencies]
bigdecimal = { version = "*", features = ["serde"] }
csv = "1"
serde = { version = "1", features = ["derive"] }
