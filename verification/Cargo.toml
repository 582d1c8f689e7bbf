[package]
name = "tui-event-controller"
version = "0.1.0"
edition = "2021"
publish = false

[dependencies]
ratatui = { version = "0.29", features = ["unstable-widget-ref"] }
