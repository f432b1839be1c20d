[package]
name = "ldap-backend"
version = "0.1.0"
edition = "2021"
publish = false

[dependencies]
async-trait = "0.1"
chrono = { version = "0.4", default-features = false, features = ["clock", "std"] }
ldap3 = { version = "0.11", default-features = false, features = ["tls-rustls"] }
serde = { version = "1", features = ["derive"] }
serde_json = "1"
tokio = { version = "1", features = ["rt", "sync", "time", "net", "io-util", "macros"] }
tracing = "0.1"
