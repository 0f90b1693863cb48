[package]
name = "query_core"
version = "0.1.0"
edition = "2021"
publish = false

[dependencies]
once_cell = "*"
uuid = "*"
Inflector = "*"
serde = { version = "*", features = ["derive"] }
serde_json = "*"
graphql-parser = "*"
