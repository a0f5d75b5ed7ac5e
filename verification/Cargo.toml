[package]
name = "chat_relay"
version = "0.1.0"
edition = "2021"
publish = false

[dependencies]
bson = "2"
chrono = "0.4"
crossterm = "0.28"
dotenvy = "0.15"
futures = "0.3"
futures-util = "0.3"
mongodb = "2.8"
openssl = "0.10"
rand = "0.8"
ratatui = "0.29"
scylla = "0.14"
serde = { version = "1", features = ["derive"] }
serde_json = "1"
tokio = { version = "1", features = ["full"] }
tokio-tungstenite = "0.24"
tui-textarea = "0.7"
