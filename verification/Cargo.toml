[package]
name = "jsonrpc_server"
version = "0.1.0"
edition = "2021"
publish = false

[dependencies]
futures = "0.1"
serde = "1"
serde_json = "1"
