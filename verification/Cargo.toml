[package]
name = "agentx"
version = "0.5.0"
edition = "2021"
publish = false

[dependencies]
regex = "1"
autocorrect = "*"
agent-client-protocol = "*"
agent-client-protocol-schema = "*"
serde = { version = "1", features = ["derive"] }
serde_json = "1"
chrono = "0.4"
anyhow = "1"
