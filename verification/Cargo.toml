[package]
name = "memgraph_connector"
version = "0.1.4"
edition = "2021"
publish = false

[dependencies]
neo4rs = "0.8"
serde_json = "1"
tokio = { version = "1", features = ["rt-multi-thread"] }
