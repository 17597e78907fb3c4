[package]
name = "stock_logos"
version = "0.1.0"
edition = "2021"
publish = false

[dependencies]
clap = { version = "=4.6.7", features = ["derive"] }
colog = "=1.4.0"
log = "=0.4.34"
reqwest = "=0.13.5"
tokio = { version = "=1.54.1", features = ["fs", "macros", "rt-multi-thread", "sync"] }
toml = { version = "=1.1.8", features = ["preserve_order"] }
