[package]
name = "todo_to_issue"
version = "0.1.0"
edition = "2021"
publish = false

[dependencies]
glob = "0.3"
clap = "4"
console = "0.15"
dialoguer = "0.11"
reqwest = { version = "0.12", default-features = false, features = ["blocking", "json"] }
serde = { version = "1", features = ["derive"] }
serde_json = "1"
