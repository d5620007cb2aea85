[package]
name = "karma_vm"
version = "0.1.0"
edition = "2021"
publish = false

[dependencies]
serde_json = "1.0"
clap = { version = "4", features = ["derive"] }
