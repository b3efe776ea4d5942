[package]
name = "mark_as_read"
version = "0.1.0"
edition = "2021"
publish = false

[dependencies]
crossterm = "0.25"
futures = "0.3"
oauth2 = "4"
reqwest = { version = "0.11", features = ["json"] }
serde = { version = "1", features = ["derive"] }
serde_json = "1"
thiserror = "1"
tokio = { version = "1", features = ["macros", "rt-multi-thread"] }
tui = "0.19"
url = "2"
