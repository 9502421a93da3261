[package]
name = "royal_api"
version = "0.1.0"
edition = "2021"
publish = false

[dependencies]
select = "*"
serde_json = "*"
chrono = { version = "*", default-features = false, features = ["std"] }
reqwest = { version = "*", default-features = false, features = ["blocking", "rustls-tls"] }
home = "*"
ratatui = "*"
tui-big-text = "*"
