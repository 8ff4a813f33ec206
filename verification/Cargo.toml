[package]
name = "poorkid"
version = "0.1.0"
edition = "2021"
publish = false

[dependencies]
wmidi = "*"
midir = "*"
tokio = { version = "*", default-features = false, features = ["rt-multi-thread", "macros", "sync", "time"] }
futures = { version = "*", default-features = false, features = ["alloc"] }
