[package]
name = "edtui"
version = "0.1.0"
edition = "2021"
publish = false

[dependencies]
edtui-jagged = "*"
synoptic = "2"
crossterm = "*"
ratatui = "*"
ratatui-explorer = "*"
tui-logger = "*"
serde = { version = "1", features = ["derive"] }
clap = { version = "4", features = ["derive"] }
color-eyre = "*"
tokio = { version = "1", features = ["rt-multi-thread", "macros", "sync"] }
log = "0.4"
strum = { version = "*", features = ["derive"] }
enum_dispatch = "*"
