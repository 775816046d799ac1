[package]
name = "weaver_resolver"
version = "0.1.0"
edition = "2021"
publish = false

[dependencies]
clap = { version = "4.5", features = ["derive"] }
ratatui = "0.26"
serde = { version = "1", features = ["derive"] }
