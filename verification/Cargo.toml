[package]
name = "top_signals_browser"
version = "0.1.0"
edition = "2021"
publish = false

[dependencies]
stylus-sdk = "=0.9.0"
openzeppelin-stylus = { version = "=0.3.0", features = ["export-abi"] }
ruint = { version = "=1.14.0", default-features = false }
