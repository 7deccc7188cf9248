[package]
name = "gui_nvim"
version = "0.1.0"
edition = "2021"
publish = false

[dependencies]
clap = { version = "4", features = ["derive"] }
serde = { version = "1", features = ["derive"] }
toml = "0.8"
nvim-rs = { version = "0.9", features = ["use_tokio"] }
tokio = { version = "1", features = ["rt-multi-thread", "sync", "process", "macros", "io-util"] }
winit = "0.30"
async-trait = "0.1"
log = "0.4"
env_logger = "0.11"
dirs = "6"
