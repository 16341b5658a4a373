[package]
name = "obfusku"
version = "1.0.0"
edition = "2021"
publish = false

[dependencies]
rustc-hash = "2"
thiserror = "1"
clap = { version = "4", features = ["derive"] }
colored = "2"
