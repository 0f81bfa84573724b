[package]
name = "stateknot_core"
version = "0.1.0"
edition = "2021"
publish = false

[dependencies]
fluent-uri = "*"
language-tags = "*"
schemars = "1"
serde = { version = "1", features = ["derive"] }
serde_json = "1"
serde_json_canonicalizer = "*"
sha2 = "*"
thiserror = "*"
uuid = { version = "1", features = ["v7"] }
