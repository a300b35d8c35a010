[package]
name = "additional_accounts_request"
version = "0.1.0"
edition = "2021"
publish = false

[dependencies]
anchor-lang = { version = "0.28.0", features = ["event-cpi"] }
serde = { version = "1", features = ["derive"] }
serde_json = "1"
