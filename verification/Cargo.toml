[package]
name = "vapix"
version = "0.1.0"
edition = "2021"
publish = false

[dependencies]
chrono = "0.4"
digest_auth = "0.3"
futures = "0.3"
goblin = "*"
http = "*"
quick-xml = { version = "*", features = ["serialize"] }
serde = { version = "1", features = ["derive"] }
serde_json = "1"
serde_urlencoded = "0.7"
