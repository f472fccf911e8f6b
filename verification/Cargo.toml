[package]
name = "member_core"
version = "0.1.0"
edition = "2021"
publish = false

[dependencies]
parity-scale-codec = { version = "3", default-features = false, features = ["std"] }
tokio = { version = "1", default-features = false, features = ["sync", "time", "macros"] }
futures = "0.3"
log = "0.4"
