[package]
name = "swc_coverage_instrument"
version = "0.1.0"
edition = "2021"
publish = false

[dependencies]
indexmap = "2"
typed-path = "*"
wax = "*"
regex = "1"
serde = { version = "1", features = ["derive"] }
serde_json = "1"
tracing = "*"
tracing-subscriber = { version = "*", features = ["fmt"] }
