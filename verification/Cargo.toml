[package]
name = "motherduck_connector"
version = "0.1.0"
edition = "2021"
publish = false

[dependencies]
serde_json = "=1.0.154"
duckdb = { version = "=1.20000.1", default-features = false }
