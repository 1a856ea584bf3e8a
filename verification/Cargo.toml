[package]
name = "greet_node"
version = "0.1.0"
edition = "2021"
publish = false

[dependencies]
futures = "0.3"
libp2p = { version = "0.53", features = ["cbor", "identify", "macros", "mdns", "quic", "request-response", "tokio"] }
serde = { version = "1", features = ["derive"] }
tokio = { version = "1", features = ["macros", "rt-multi-thread", "sync", "time"] }
tower = { version = "0.4", features = ["util"] }
tracing-subscriber = { version = "0.3", features = ["env-filter"] }
