[package]
name = "cursor_notepad"
version = "0.1.0"
edition = "2021"
publish = false

[dependencies]
chrono = { version = "0.4", features = ["serde"] }
clap = { version = "4", features = ["derive"] }
colored = "2"
dirs = "5"
rusqlite = "0.31"
serde = { version = "1", features = ["derive"] }
serde_json = "1"
