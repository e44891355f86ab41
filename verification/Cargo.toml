[package]
name = "suha"
version = "0.1.0"
edition = "2021"
publish = false

[dependencies]
crossbeam-channel = "0.5"
crossterm = { version = "0.25", features = ["event-stream"] }
futures = "0.3"
futures-timer = "3"
home = "0.5"
serde = { version = "1", features = ["derive"] }
structopt = "0.3"
tokio = { version = "1", features = ["full"] }
toml = "0.5"
tui = "0.19"
