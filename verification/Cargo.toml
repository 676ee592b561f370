[package]
name = "wifi_gui"
version = "0.1.0"
edition = "2021"
publish = false

[dependencies]
zbus = "5"
uuid = { version = "1", features = ["v5"] }
tokio = { version = "1", features = ["macros", "rt-multi-thread", "sync"] }
ratatui = "0.29"
crossterm = { version = "0.28", features = ["event-stream"] }
futures-util = "0.3"
